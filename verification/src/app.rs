//! The state of the front end: which view is shown, where the menu's
//! selection stands, and the one session that may be running.

use crate::display::{chart_width, viewport, viewport_of, Area, CHART_MARGIN};
use crate::handlers;
use crate::sort::{Algorithm, Sort};
use vstd::prelude::*;
use vstd::view::View as _;

verus! {

/// What the front end shows: the menu, or one entry of the catalog.
#[derive(Clone, Copy, Debug, PartialEq, Eq, Structural)]
pub enum View {
    Menu,
    Insertion,
    Selection,
    Bubble,
    Shell,
    Merge,
    Heap,
    Quick,
    Quick3,
}

impl View {
    /// The algorithm behind a view, for the entries of the catalog that can
    /// be recorded.
    pub open spec fn algorithm_of(self) -> Option<Algorithm> {
        match self {
            View::Bubble => Some(Algorithm::Bubble),
            View::Insertion => Some(Algorithm::Insertion),
            View::Selection => Some(Algorithm::Selection),
            _ => None,
        }
    }

    /// The algorithm behind a view, for the entries of the catalog that can
    /// be recorded.
    #[verifier::when_used_as_spec(algorithm_of)]
    pub fn algorithm(self) -> (r: Option<Algorithm>)
        ensures
            r == self.algorithm_of(),
    {
        match self {
            View::Bubble => Some(Algorithm::Bubble),
            View::Insertion => Some(Algorithm::Insertion),
            View::Selection => Some(Algorithm::Selection),
            _ => None,
        }
    }
}

/// A key press, as far as the front end tells keys apart.
#[derive(Clone, Copy, Debug, PartialEq, Eq, Structural)]
pub enum Key {
    Up,
    Down,
    Enter,
    /// The key that leaves a view.
    Back,
    /// The key combination that ends the program from anywhere.
    Interrupt,
    Other,
}

/// Whether the program goes on after a key press.
#[derive(Clone, Copy, Debug, PartialEq, Eq, Structural)]
pub enum Flow {
    Continue,
    Quit,
}

/// A list together with the position selected in it, if any.
pub struct StatefulList<T> {
    pub selected: Option<usize>,
    pub items: Vec<T>,
}

/// The position after `selected` in a list of `len` entries, going round to
/// the first from the last.
pub open spec fn position_after(selected: int, len: int) -> int {
    if selected + 1 >= len {
        0
    } else {
        selected + 1
    }
}

/// The position before `selected` in a list of `len` entries, going round to
/// the last from the first.
pub open spec fn position_before(selected: int, len: int) -> int {
    if selected == 0 {
        len - 1
    } else {
        selected - 1
    }
}

impl<T> Default for StatefulList<T> {
    fn default() -> (r: StatefulList<T>)
        ensures
            r.selected is None,
            r.items@.len() == 0,
    {
        StatefulList { selected: None, items: Vec::new() }
    }
}

impl<T> StatefulList<T> {
    /// The same list with other entries.
    pub fn set_items(self, items: Vec<T>) -> (r: StatefulList<T>)
        ensures
            r.items == items,
            r.selected == self.selected,
    {
        StatefulList { selected: self.selected, items }
    }

    /// The same list with position `idx` selected.
    pub fn initial_select(self, idx: usize) -> (r: StatefulList<T>)
        ensures
            r.items == self.items,
            r.selected == Some(idx),
    {
        StatefulList { selected: Some(idx), items: self.items }
    }

    /// Moves the selection, if there is one, to the next entry, and from the
    /// last entry to the first.
    pub fn next(&mut self)
        ensures
            final(self).items == old(self).items,
            match old(self).selected {
                Some(k) => final(self).selected == Some(
                    position_after(k as int, old(self).items.len() as int) as usize,
                ),
                None => final(self).selected is None,
            },
        no_unwind
    {
        if let Some(selected) = self.selected {
            if selected >= self.items.len() || selected + 1 >= self.items.len() {
                self.selected = Some(0);
            } else {
                self.selected = Some(selected + 1);
            }
        }
    }

    /// Moves the selection, if there is one, to the entry before it, and
    /// from the first entry to the last.
    pub fn previous(&mut self)
        requires
            old(self).selected == Some(0usize) ==> old(self).items.len() > 0,
        ensures
            final(self).items == old(self).items,
            match old(self).selected {
                Some(k) => final(self).selected == Some(
                    position_before(k as int, old(self).items.len() as int) as usize,
                ),
                None => final(self).selected is None,
            },
        no_unwind
    {
        if let Some(selected) = self.selected {
            if selected == 0 {
                self.selected = Some(self.items.len() - 1);
            } else {
                self.selected = Some(selected - 1);
            }
        }
    }
}

/// The catalog as the menu lists it: each entry's label and the view behind
/// it.
pub open spec fn menu_entries() -> Seq<(&'static str, View)> {
    seq![
        ("Insertion Sort", View::Insertion),
        ("Selection Sort", View::Selection),
        ("Bubble Sort", View::Bubble),
        ("Shell Sort", View::Shell),
        ("Merge Sort", View::Merge),
        ("Heap Sort", View::Heap),
        ("Quick Sort", View::Quick),
        ("Quick3 Sort", View::Quick3),
    ]
}

/// The menu: the catalog, with one of its entries selected.
pub struct MenuState {
    list: StatefulList<(&'static str, View)>,
}

impl MenuState {
    /// The menu lists the catalog, and its selection is one of the entries.
    #[verifier::type_invariant]
    closed spec fn valid(&self) -> bool {
        &&& self.list.items@ == menu_entries()
        &&& self.list.selected matches Some(k) && k < menu_entries().len()
    }

    /// The position of the selected entry.
    pub closed spec fn selection(&self) -> nat {
        match self.list.selected {
            Some(k) => k as nat,
            None => 0,
        }
    }

    /// The menu with its first entry selected.
    pub fn new() -> (r: MenuState)
        ensures
            r.selection() == 0,
    {
        let list = StatefulList::default().set_items(
            vec![
                ("Insertion Sort", View::Insertion),
                ("Selection Sort", View::Selection),
                ("Bubble Sort", View::Bubble),
                ("Shell Sort", View::Shell),
                ("Merge Sort", View::Merge),
                ("Heap Sort", View::Heap),
                ("Quick Sort", View::Quick),
                ("Quick3 Sort", View::Quick3),
            ],
        ).initial_select(0);
        MenuState { list }
    }

    /// The entries, in the order in which they are listed.
    pub fn items(&self) -> (r: &Vec<(&'static str, View)>)
        ensures
            r@ == menu_entries(),
    {
        proof {
            use_type_invariant(self);
        }
        &self.list.items
    }

    /// The position of the selected entry.
    pub fn selected(&self) -> (r: usize)
        ensures
            r == self.selection(),
            r < menu_entries().len(),
    {
        proof {
            use_type_invariant(self);
        }
        match self.list.selected {
            Some(k) => k,
            None => 0,
        }
    }

    /// The view behind the selected entry.
    pub fn chosen(&self) -> (r: View)
        ensures
            self.selection() < menu_entries().len(),
            r == menu_entries()[self.selection() as int].1,
    {
        proof {
            use_type_invariant(self);
        }
        self.list.items[self.selected()].1
    }

    /// Moves the selection down by one entry, and from the last entry to the
    /// first.
    pub fn next(&mut self)
        ensures
            final(self).selection() == position_after(
                old(self).selection() as int,
                menu_entries().len() as int,
            ),
    {
        proof {
            use_type_invariant(&*self);
        }
        self.list.next();
    }

    /// Moves the selection up by one entry, and from the first entry to the
    /// last.
    pub fn previous(&mut self)
        ensures
            final(self).selection() == position_before(
                old(self).selection() as int,
                menu_entries().len() as int,
            ),
    {
        proof {
            use_type_invariant(&*self);
        }
        self.list.previous();
    }
}

/// A session of one known algorithm.
pub struct SortState<T> where T: Sort {
    pub sort: T,
}

/// The states of the views that keep one.
pub struct AppStates {
    pub menu: Option<MenuState>,
}

impl AppStates {
    /// The states at the start: the menu, with its first entry selected.
    pub fn new() -> (r: AppStates)
        ensures
            r.menu matches Some(m) && m.selection() == 0,
    {
        AppStates { menu: Some(MenuState::new()) }
    }
}

/// Everything the front end keeps between two events.
pub struct App {
    pub current_view: View,
    pub states: AppStates,
    /// The number of values that fit the display.
    pub ui_width: u16,
    /// The session that is running, if any.
    pub sort: Option<Box<dyn Sort>>,
}

impl App {
    /// A session that is complete is not active. This holds at the start, no
    /// key press undoes it, and every tick of the clock brings it about.
    pub open spec fn settled(&self) -> bool {
        self.sort matches Some(s) ==> !(s.state().complete && s.state().active)
    }

    /// What is kept when the program starts: the menu is shown and no
    /// session is running.
    pub fn new() -> (r: App)
        ensures
            r.current_view == View::Menu,
            r.states.menu matches Some(m) && m.selection() == 0,
            r.ui_width == 0,
            r.sort is None,
            r.settled(),
    {
        App { current_view: View::Menu, states: AppStates::new(), ui_width: 0, sort: None }
    }

    /// The view that is shown.
    pub fn current_view(&self) -> (r: &View)
        ensures
            *r == self.current_view,
    {
        &self.current_view
    }

    /// Shows another view.
    pub fn set_current_view(&mut self, view: View)
        ensures
            final(self).current_view == view,
            final(self).states == old(self).states,
            final(self).ui_width == old(self).ui_width,
            final(self).sort == old(self).sort,
    {
        self.current_view = view;
    }

    /// Whether `key` makes the front end start a session on new data, so
    /// that it has to be handed some.
    pub open spec fn needs_data(&self, key: Key) -> bool {
        &&& key == Key::Enter
        &&& if self.current_view == View::Menu {
            self.states.menu is Some
        } else {
            self.sort matches Some(s) && s.state().complete
        }
    }

    /// Whether `key` makes the front end start a session on new data, so
    /// that it has to be handed some.
    pub fn wants_data(&self, key: Key) -> (r: bool)
        ensures
            r == self.needs_data(key),
    {
        match key {
            Key::Enter => match self.current_view {
                View::Menu => self.states.menu.is_some(),
                _ => match &self.sort {
                    Some(sort) => sort.is_sorted(),
                    None => false,
                },
            },
            _ => false,
        }
    }

    /// Lays the screen out for a terminal of the given size: returns the area
    /// to draw on, and notes how many values a chart in it shows.
    pub fn layout(&mut self, width: u16, height: u16) -> (r: Area)
        requires
            viewport_of(width, height).width / 2 >= CHART_MARGIN,
        ensures
            r == viewport_of(width, height),
            final(self).ui_width == r.width / 2 - CHART_MARGIN,
            final(self).current_view == old(self).current_view,
            final(self).states == old(self).states,
            final(self).sort == old(self).sort,
    {
        let area = viewport(width, height);
        self.ui_width = chart_width(area.width);
        area
    }

    /// A tick of the clock: an active session makes one step, and nothing
    /// else changes.
    pub fn tick(&mut self)
        ensures
            final(self).current_view == old(self).current_view,
            final(self).states == old(self).states,
            final(self).ui_width == old(self).ui_width,
            match old(self).sort {
                Some(s) => {
                    &&& final(self).sort matches Some(t)
                    &&& t.state().wf()
                    &&& t.state() == if s.state().active {
                        s.state().step()
                    } else {
                        s.state()
                    }
                },
                None => final(self).sort is None,
            },
            final(self).settled(),
    {
        if let Some(sort) = self.sort.as_mut() {
            if sort.is_active() {
                sort.step();
            }
        }
    }

    /// Handles a key press wherever it occurs. The interrupt ends the
    /// program; Back ends it from the menu and otherwise returns to the
    /// menu, discarding the session; every other key goes to the view that
    /// is shown.
    pub fn dispatch(&mut self, key: Key, fresh: Vec<u64>) -> (r: Flow)
        ensures
            r == Flow::Quit <==> key == Key::Interrupt || (key == Key::Back && old(
                self,
            ).current_view == View::Menu),
            r == Flow::Quit ==> *final(self) == *old(self),
            key == Key::Back && r == Flow::Continue ==> {
                &&& final(self).current_view == View::Menu
                &&& final(self).sort is None
                &&& final(self).states == old(self).states
                &&& final(self).ui_width == old(self).ui_width
            },
            key != Key::Back && key != Key::Interrupt ==> handlers::input_handled(
                key,
                *old(self),
                fresh@,
                *final(self),
            ),
            old(self).settled() ==> final(self).settled(),
    {
        match key {
            Key::Interrupt => Flow::Quit,
            Key::Back => match self.current_view {
                View::Menu => Flow::Quit,
                _ => {
                    self.set_current_view(View::Menu);
                    self.sort = None;
                    Flow::Continue
                },
            },
            _ => {
                self.handle_input(key, fresh);
                Flow::Continue
            },
        }
    }

    /// Hands a key press to the view that is shown: to the menu, or to the
    /// session. `fresh` is the data for a new session; it is dropped unless
    /// the key starts one.
    pub fn handle_input(&mut self, key: Key, fresh: Vec<u64>)
        ensures
            handlers::input_handled(key, *old(self), fresh@, *final(self)),
            old(self).settled() ==> final(self).settled(),
    {
        match self.current_view {
            View::Menu => handlers::handle_menu_input(key, self, fresh),
            _ => handlers::handle_sort_input(key, self, fresh),
        }
    }
}

} // verus!
