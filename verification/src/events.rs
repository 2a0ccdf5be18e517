//! One step of the interactive loop: how each input event changes the
//! application state, and when the loop is asked to stop.

use vstd::prelude::*;
use crate::app::{App, removed_last};
use crate::hit::{resolve, resolve_model, RenderedBuffer};

verus! {

/// The input events the application reacts to. Everything else a terminal
/// can report is `Other` and is ignored.
#[derive(Clone, Copy, PartialEq, Eq, Structural, Debug)]
pub enum InputEvent {
    Escape,
    Backspace,
    Char(char),
    LeftClick(u16, u16),
    Other,
}

/// Processes one input event against the state and the frame drawn last:
/// escape asks the loop to stop; backspace and typed characters edit the
/// filter; a left click selects the swatch rendered at the clicked cell, if
/// any; anything else changes nothing.
pub fn step(app: &mut App, frame: &RenderedBuffer, event: InputEvent) -> (quit: bool)
    requires
        frame.wf(),
    ensures
        quit == (event is Escape),
        final(app).catalog == old(app).catalog,
        event is Escape ==> *final(app) == *old(app),
        event is Other ==> *final(app) == *old(app),
        event is Backspace ==> final(app).filter@ == removed_last(old(app).filter@)
            && final(app).selected == old(app).selected,
        event matches InputEvent::Char(c) ==> final(app).filter@ == old(app).filter@.push(c)
            && final(app).selected == old(app).selected,
        event matches InputEvent::LeftClick(row, col) ==> final(app).filter == old(app).filter
            && (match resolve_model(*frame, old(app).catalog@, old(app).filter@, row as int, col as int) {
                Some(sel) => final(app).selected matches Some(s) && s.0@ == sel.0 && s.1 == sel.1,
                None => final(app).selected == old(app).selected,
            }),
{
    match event {
        InputEvent::Escape => true,
        InputEvent::Backspace => {
            app.delete_input();
            false
        },
        InputEvent::Char(c) => {
            app.handle_input(c);
            false
        },
        InputEvent::LeftClick(row, col) => {
            let hit = resolve(frame, app, row, col);
            if let Some((name, value)) = hit {
                app.select_color(name.as_str(), value);
            }
            false
        },
        InputEvent::Other => false,
    }
}

} // verus!
