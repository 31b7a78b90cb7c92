//! What a key press does in each view.

use crate::app;
use crate::app::{App, Key};
use crate::sort::bubble::BubbleSort;
use crate::sort::insertion::InsertionSort;
use crate::sort::selection::SelectionSort;
use crate::sort::{SessionState, Sort};
use vstd::prelude::*;

verus! {

/// `sort` is what choosing `view` with the data `items` gives: a session at
/// its start, for the entries of the catalog that can be recorded, and no
/// session for the others.
pub open spec fn opened(view: app::View, items: Seq<u64>, sort: Option<Box<dyn Sort>>) -> bool {
    match view.algorithm_of() {
        Some(algorithm) => sort matches Some(s) && s.state().wf() && s.state()
            == SessionState::fresh(algorithm, items),
        None => sort is None,
    }
}

/// Builds the session for an entry of the catalog over `items`; the entries
/// that cannot be recorded give none.
pub fn create(view: app::View, items: Vec<u64>) -> (r: Option<Box<dyn Sort>>)
    ensures
        opened(view, items@, r),
{
    match view {
        app::View::Bubble => Some(Box::new(BubbleSort::new(items))),
        app::View::Insertion => Some(Box::new(InsertionSort::new(items))),
        app::View::Selection => Some(Box::new(SelectionSort::new(items))),
        _ => None,
    }
}

/// `after` is `before` once the menu has handled `key`, with `fresh` as the
/// data for a new session.
///
/// Up and Down move the selection. Enter opens the selected entry: a session
/// over `fresh` replaces whatever session there was, and its view is shown;
/// an entry that cannot be recorded leaves no session and the view as it
/// was. Every other key, and every key while there is no menu, changes
/// nothing.
pub open spec fn menu_input_handled(key: Key, before: App, fresh: Seq<u64>, after: App) -> bool {
    let entries = app::menu_entries();
    &&& after.ui_width == before.ui_width
    &&& match before.states.menu {
        None => after.states.menu is None && after.current_view == before.current_view
            && after.sort == before.sort,
        Some(m) => {
            &&& after.states.menu matches Some(n)
            &&& match key {
                Key::Up => {
                    &&& n.selection() == app::position_before(
                        m.selection() as int,
                        entries.len() as int,
                    )
                    &&& after.current_view == before.current_view
                    &&& after.sort == before.sort
                },
                Key::Down => {
                    &&& n.selection() == app::position_after(
                        m.selection() as int,
                        entries.len() as int,
                    )
                    &&& after.current_view == before.current_view
                    &&& after.sort == before.sort
                },
                Key::Enter => {
                    let view = entries[m.selection() as int].1;
                    &&& m.selection() < entries.len()
                    &&& n.selection() == m.selection()
                    &&& opened(view, fresh, after.sort)
                    &&& after.current_view == if view.algorithm_of() is Some {
                        view
                    } else {
                        before.current_view
                    }
                },
                _ => {
                    &&& n.selection() == m.selection()
                    &&& after.current_view == before.current_view
                    &&& after.sort == before.sort
                },
            }
        },
    }
}

/// `after` is `before` once the view of a session has handled `key`, with
/// `fresh` as the data for a new session.
///
/// Enter restarts a complete session on `fresh` and sets it going, and
/// pauses or resumes one that is not complete. Every other key, and every
/// key while there is no session, changes nothing.
pub open spec fn sort_input_handled(key: Key, before: App, fresh: Seq<u64>, after: App) -> bool {
    &&& after.ui_width == before.ui_width
    &&& after.current_view == before.current_view
    &&& after.states == before.states
    &&& match before.sort {
        Some(s) if key == Key::Enter => {
            &&& after.sort matches Some(t)
            &&& t.state().wf()
            &&& t.state() == if s.state().complete {
                SessionState::fresh(s.state().algorithm, fresh).with_active(true)
            } else {
                s.state().with_active(!s.state().active)
            }
        },
        _ => after.sort == before.sort,
    }
}

/// `after` is `before` once the view that `before` shows has handled `key`.
pub open spec fn input_handled(key: Key, before: App, fresh: Seq<u64>, after: App) -> bool {
    if before.current_view == app::View::Menu {
        menu_input_handled(key, before, fresh, after)
    } else {
        sort_input_handled(key, before, fresh, after)
    }
}

/// The data handed in with a key press matters only where the key starts a
/// session: elsewhere any other data leads to the same state.
pub proof fn lemma_data_only_where_needed(
    key: Key,
    before: App,
    fresh: Seq<u64>,
    other: Seq<u64>,
    after: App,
)
    requires
        !before.needs_data(key),
        input_handled(key, before, fresh, after),
    ensures
        input_handled(key, before, other, after),
{
}

/// Handles a key press while the menu is shown.
pub fn handle_menu_input(key: Key, app: &mut App, fresh: Vec<u64>)
    ensures
        menu_input_handled(key, *old(app), fresh@, *final(app)),
        old(app).settled() ==> final(app).settled(),
{
    if let Some(menu) = app.states.menu.as_mut() {
        match key {
            Key::Up => {
                menu.previous();
            },
            Key::Down => {
                menu.next();
            },
            Key::Enter => {
                let view = menu.chosen();
                app.sort = create(view, fresh);
                if view.algorithm().is_some() {
                    app.set_current_view(view);
                }
            },
            _ => (),
        }
    }
}

/// Handles a key press while a session is shown.
pub fn handle_sort_input(key: Key, app: &mut App, fresh: Vec<u64>)
    ensures
        sort_input_handled(key, *old(app), fresh@, *final(app)),
        old(app).settled() ==> final(app).settled(),
{
    match key {
        Key::Enter => {
            if let Some(sort) = app.sort.as_mut() {
                if sort.is_sorted() {
                    sort.reset(fresh);
                    sort.activate_sort();
                } else {
                    sort.toggle_sort();
                }
            }
        },
        _ => (),
    }
}

} // verus!
