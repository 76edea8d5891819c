//! The interaction state of the viewer and the dispatcher that applies one
//! key event to it.

use vstd::prelude::*;
use vstd::string::StringExecFns;
use crate::input::{Key, KeyInput, LoopAction};
use crate::sheet::{sheets_view, CheatSheet, SheetView};
use crate::text::{equal_ignoring_ascii_case, pop_char, push_char, same_ignoring_ascii_case};

verus! {

/// Whether the list of cheatsheets or one cheatsheet is on the screen.
#[derive(Clone, Copy, Debug, PartialEq, Eq)]
pub enum AppMode {
    Browser,
    Viewer,
}

/// The state of the viewer. The cheatsheets never change after loading; the
/// scroll offset is stored as asked for and clamped only when drawing.
pub struct App {
    pub mode: AppMode,
    pub sheets: Vec<CheatSheet>,
    pub selected_sheet: usize,
    pub scroll_offset: usize,
    pub filter_query: String,
    pub filtering: bool,
    pub should_quit: bool,
}

/// The mathematical content of an `App`.
pub struct AppView {
    pub mode: AppMode,
    pub sheets: Seq<SheetView>,
    pub selected: nat,
    pub scroll: nat,
    pub filter: Seq<char>,
    pub filtering: bool,
    pub quit: bool,
}

impl View for App {
    type V = AppView;

    open spec fn view(&self) -> AppView {
        AppView {
            mode: self.mode,
            sheets: sheets_view(self.sheets@),
            selected: self.selected_sheet as nat,
            scroll: self.scroll_offset as nat,
            filter: self.filter_query@,
            filtering: self.filtering,
            quit: self.should_quit,
        }
    }
}

/// The cheatsheet at `i` is the first whose name equals `name` up to the case
/// of ASCII letters.
pub open spec fn is_first_named(sheets: Seq<SheetView>, name: Seq<char>, i: int) -> bool {
    &&& 0 <= i < sheets.len()
    &&& same_ignoring_ascii_case(sheets[i].name, name)
    &&& forall|j: int| 0 <= j < i ==> !same_ignoring_ascii_case(#[trigger] sheets[j].name, name)
}

/// No cheatsheet has the name `name`, up to the case of ASCII letters.
pub open spec fn none_named(sheets: Seq<SheetView>, name: Seq<char>) -> bool {
    forall|j: int|
        0 <= j < sheets.len() ==> !same_ignoring_ascii_case(#[trigger] sheets[j].name, name)
}

impl AppView {
    /// The selection points at a cheatsheet (or at 0 when there is none), and
    /// a filter text is kept only while the filter is being entered.
    pub open spec fn wf(self) -> bool {
        &&& self.sheets.len() == 0 ==> self.selected == 0
        &&& self.sheets.len() > 0 ==> self.selected < self.sheets.len()
        &&& !self.filtering ==> self.filter.len() == 0
    }

    /// The state is the one at startup for these cheatsheets and this
    /// request: nothing scrolled, no filter, no quit; the list with the first
    /// cheatsheet selected if no name was requested; else one cheatsheet, the
    /// first of that name, or the first of all if none has it.
    pub open spec fn is_initial(self, sheets: Seq<SheetView>, requested: Option<Seq<char>>) -> bool {
        &&& self.sheets == sheets
        &&& self.scroll == 0
        &&& self.filter.len() == 0
        &&& !self.filtering
        &&& !self.quit
        &&& match requested {
            None => self.mode == AppMode::Browser && self.selected == 0,
            Some(name) => self.mode == AppMode::Viewer && (is_first_named(
                sheets,
                name,
                self.selected as int,
            ) || (none_named(sheets, name) && self.selected == 0)),
        }
    }

    /// The state after a key in filter entry: cancel, erase, type; every
    /// other key is ignored.
    pub open spec fn filter_step(self, key: Key) -> AppView {
        match key {
            Key::Esc => AppView { filtering: false, filter: Seq::empty(), ..self },
            Key::Backspace => if self.filter.len() > 0 {
                AppView { filter: self.filter.drop_last(), ..self }
            } else {
                self
            },
            Key::Char(c) => AppView { filter: self.filter.push(c), ..self },
            _ => self,
        }
    }

    /// The state after a key while the list of cheatsheets is shown.
    pub open spec fn browse_step(self, key: Key) -> AppView {
        if key.is_quit() {
            AppView { quit: true, ..self }
        } else if key.is_down() {
            if self.selected + 1 < self.sheets.len() {
                AppView { selected: self.selected + 1, scroll: 0, ..self }
            } else {
                self
            }
        } else if key.is_up() {
            AppView {
                selected: if self.selected > 0 {
                    (self.selected - 1) as nat
                } else {
                    0
                },
                scroll: 0,
                ..self
            }
        } else if key == Key::Enter {
            AppView { mode: AppMode::Viewer, scroll: 0, ..self }
        } else if key.is_filter_start() {
            AppView { filtering: true, filter: Seq::empty(), ..self }
        } else {
            self
        }
    }

    /// The state after a key while one cheatsheet is shown. Going down stops
    /// only at the greatest offset that can be stored.
    pub open spec fn view_step(self, key: Key) -> AppView {
        if key.is_quit() {
            AppView { quit: true, ..self }
        } else if key.is_down() {
            AppView {
                scroll: if self.scroll < usize::MAX {
                    self.scroll + 1
                } else {
                    self.scroll
                },
                ..self
            }
        } else if key.is_up() {
            AppView {
                scroll: if self.scroll > 0 {
                    (self.scroll - 1) as nat
                } else {
                    0
                },
                ..self
            }
        } else if key.is_filter_start() {
            AppView { filtering: true, filter: Seq::empty(), ..self }
        } else {
            self
        }
    }

    /// The state after one key event. Events that are no press change
    /// nothing; filter entry takes every key before the mode is looked at.
    pub open spec fn step(self, input: KeyInput) -> AppView {
        if !input.pressed {
            self
        } else if self.filtering {
            self.filter_step(input.key)
        } else {
            match self.mode {
                AppMode::Browser => self.browse_step(input.key),
                AppMode::Viewer => self.view_step(input.key),
            }
        }
    }

    /// The state after a sequence of key events, first to last.
    pub open spec fn run(self, inputs: Seq<KeyInput>) -> AppView
        decreases inputs.len(),
    {
        if inputs.len() == 0 {
            self
        } else {
            self.run(inputs.drop_last()).step(inputs.last())
        }
    }
}

/// The requested name as a sequence of characters.
pub open spec fn requested_view(requested: Option<String>) -> Option<Seq<char>> {
    match requested {
        Some(name) => Some(name@),
        None => None,
    }
}

/// A press of `key`.
pub open spec fn press(key: Key) -> KeyInput {
    KeyInput { key, pressed: true }
}

/// `n` presses of `key`.
pub open spec fn presses(key: Key, n: nat) -> Seq<KeyInput> {
    Seq::new(n, |i: int| press(key))
}

/// No key event breaks the shape of the state.
pub proof fn lemma_step_preserves_wf(s: AppView, input: KeyInput)
    requires
        s.wf(),
    ensures
        s.step(input).wf(),
{
}

/// An event changes neither the cheatsheets nor a quit that was asked for.
pub proof fn lemma_step_keeps_sheets_and_quit(s: AppView, input: KeyInput)
    ensures
        s.step(input).sheets == s.sheets,
        s.quit ==> s.step(input).quit,
{
}

/// Whatever the events, the state keeps its shape and its cheatsheets, and a
/// quit that was asked for is never taken back.
pub proof fn lemma_run_invariants(s: AppView, inputs: Seq<KeyInput>)
    ensures
        s.wf() ==> s.run(inputs).wf(),
        s.run(inputs).sheets == s.sheets,
        s.quit ==> s.run(inputs).quit,
    decreases inputs.len(),
{
    if inputs.len() > 0 {
        lemma_run_invariants(s, inputs.drop_last());
        let before = s.run(inputs.drop_last());
        if before.wf() {
            lemma_step_preserves_wf(before, inputs.last());
        }
        lemma_step_keeps_sheets_and_quit(before, inputs.last());
    }
}

/// In the list, with the last cheatsheet selected, going down any number of
/// times leaves the selection where it is: it does not wrap.
pub proof fn lemma_down_stops_at_last(s: AppView, key: Key, n: nat)
    requires
        s.mode == AppMode::Browser,
        !s.filtering,
        key.is_down(),
        s.selected + 1 >= s.sheets.len(),
    ensures
        s.run(presses(key, n)) == s,
    decreases n,
{
    if n > 0 {
        assert(presses(key, n).drop_last() =~= presses(key, (n - 1) as nat));
        lemma_down_stops_at_last(s, key, (n - 1) as nat);
    }
}

/// In the list, with the first cheatsheet selected, going up any number of
/// times leaves the selection at the first.
pub proof fn lemma_up_stops_at_first(s: AppView, key: Key, n: nat)
    requires
        s.mode == AppMode::Browser,
        !s.filtering,
        key.is_up(),
        s.selected == 0,
    ensures
        s.run(presses(key, n)).selected == 0,
        s.run(presses(key, n)).mode == AppMode::Browser,
        !s.run(presses(key, n)).filtering,
    decreases n,
{
    if n > 0 {
        assert(presses(key, n).drop_last() =~= presses(key, (n - 1) as nat));
        lemma_up_stops_at_first(s, key, (n - 1) as nat);
    }
}

/// Starting the entry of a filter, then anything at all, then cancel: the
/// filter is off and its text is empty, whatever was typed in between.
pub proof fn lemma_cancel_clears_filter(s: AppView, typed: Seq<KeyInput>)
    requires
        s.wf(),
        !s.filtering,
    ensures
        s.step(press(Key::Char('/'))).filtering,
        s.step(press(Key::Char('/'))).filter.len() == 0,
        !s.step(press(Key::Char('/'))).run(typed).step(press(Key::Esc)).filtering,
        s.step(press(Key::Char('/'))).run(typed).step(press(Key::Esc)).filter.len() == 0,
{
    let entered = s.step(press(Key::Char('/')));
    lemma_step_preserves_wf(s, press(Key::Char('/')));
    lemma_run_invariants(entered, typed);
}

/// Why the viewer cannot start.
#[derive(Clone, Debug, PartialEq, Eq)]
pub enum StartError {
    /// No cheatsheet was loaded.
    NoSheets,
    /// No cheatsheet has the requested name; `available` lists the names
    /// there are, separated by a comma and a space.
    NotFound { requested: String, available: String },
}

/// The texts of `parts` with `sep` between each two neighbours.
pub open spec fn joined(parts: Seq<Seq<char>>, sep: Seq<char>) -> Seq<char>
    decreases parts.len(),
{
    if parts.len() == 0 {
        Seq::empty()
    } else if parts.len() == 1 {
        parts[0]
    } else {
        joined(parts.drop_last(), sep) + sep + parts.last()
    }
}

/// The names of the cheatsheets, in order.
pub open spec fn sheet_names(sheets: Seq<SheetView>) -> Seq<Seq<char>> {
    sheets.map_values(|s: SheetView| s.name)
}

/// The text that reports the error to the user.
pub open spec fn start_error_text(e: StartError) -> Seq<char> {
    match e {
        StartError::NoSheets => "No cheatsheets found in ~/.config/clearsheet/"@,
        StartError::NotFound { requested, available } => "Cheatsheet '"@ + requested@
            + "' not found.\nAvailable: "@ + available@,
    }
}

impl StartError {
    /// The text that reports the error to the user.
    pub fn message(&self) -> (text: String)
        ensures
            text@ == start_error_text(*self),
    {
        match self {
            StartError::NoSheets => String::from_str(
                "No cheatsheets found in ~/.config/clearsheet/",
            ),
            StartError::NotFound { requested, available } => {
                let mut text = String::from_str("Cheatsheet '");
                text.append(requested.as_str());
                text.append("' not found.\nAvailable: ");
                text.append(available.as_str());
                text
            },
        }
    }
}

/// The names of the cheatsheets, separated by a comma and a space.
pub fn available_names(sheets: &Vec<CheatSheet>) -> (names: String)
    ensures
        names@ == joined(sheet_names(sheets_view(sheets@)), ", "@),
{
    let mut names = String::new();
    let ghost all = sheet_names(sheets_view(sheets@));
    proof {
        assert(all.take(0) =~= Seq::<Seq<char>>::empty());
    }
    let mut i: usize = 0;
    while i < sheets.len()
        invariant
            i <= sheets.len(),
            all == sheet_names(sheets_view(sheets@)),
            all.len() == sheets.len(),
            names@ == joined(all.take(i as int), ", "@),
        decreases sheets.len() - i,
    {
        proof {
            assert(all.take(i + 1).drop_last() =~= all.take(i as int));
            assert(all.take(i + 1).last() == sheets[i as int]@.name);
        }
        if i > 0 {
            names.append(", ");
        } else {
            proof {
                assert(Seq::<char>::empty() + sheets[i as int]@.name =~= sheets[i as int]@.name);
            }
        }
        names.append(sheets[i].name.as_str());
        i += 1;
    }
    proof {
        assert(all.take(i as int) =~= all);
    }
    names
}

/// The index of the first cheatsheet named `name` up to ASCII case.
pub fn find_sheet(sheets: &Vec<CheatSheet>, name: &str) -> (r: Option<usize>)
    ensures
        (match r {
            Some(i) => is_first_named(sheets_view(sheets@), name@, i as int),
            None => none_named(sheets_view(sheets@), name@),
        }),
{
    let mut i: usize = 0;
    while i < sheets.len()
        invariant
            i <= sheets.len(),
            forall|j: int|
                0 <= j < i ==> !same_ignoring_ascii_case(
                    #[trigger] sheets_view(sheets@)[j].name,
                    name@,
                ),
        decreases sheets.len() - i,
    {
        if equal_ignoring_ascii_case(sheets[i].name.as_str(), name) {
            return Some(i);
        }
        i += 1;
    }
    None
}

impl App {
    /// See `AppView::wf`.
    pub open spec fn wf(&self) -> bool {
        self@.wf()
    }

    /// The state at startup. Without a requested name the list is shown with
    /// the first cheatsheet selected. With one, the first cheatsheet of that
    /// name (up to ASCII case) is shown; if there is none, the first of all.
    pub fn new(sheets: Vec<CheatSheet>, initial_sheet: Option<String>) -> (app: App)
        ensures
            app.sheets == sheets,
            app@.is_initial(sheets_view(sheets@), requested_view(initial_sheet)),
            app.wf(),
    {
        let (mode, selected_sheet) = match initial_sheet {
            Some(name) => {
                let idx: usize = match find_sheet(&sheets, name.as_str()) {
                    Some(i) => i,
                    None => 0,
                };
                (AppMode::Viewer, idx)
            },
            None => (AppMode::Browser, 0),
        };
        App {
            mode,
            sheets,
            selected_sheet,
            scroll_offset: 0,
            filter_query: String::new(),
            filtering: false,
            should_quit: false,
        }
    }

    /// The state at startup, or the reason why there is none: no cheatsheet
    /// at all, or a requested name that no cheatsheet has. A requested name
    /// is matched up to the case of ASCII letters, and the first match wins.
    pub fn start(sheets: Vec<CheatSheet>, requested: Option<String>) -> (r: Result<App, StartError>)
        ensures
            (match r {
                Err(StartError::NoSheets) => sheets.len() == 0,
                Err(StartError::NotFound { requested: asked, available }) => {
                    &&& sheets.len() > 0
                    &&& requested == Some(asked)
                    &&& none_named(sheets_view(sheets@), asked@)
                    &&& available@ == joined(sheet_names(sheets_view(sheets@)), ", "@)
                },
                Ok(app) => {
                    &&& sheets.len() > 0
                    &&& requested matches Some(name) ==> !none_named(sheets_view(sheets@), name@)
                    &&& app.sheets == sheets
                    &&& app@.is_initial(sheets_view(sheets@), requested_view(requested))
                    &&& app.wf()
                },
            }),
    {
        if sheets.len() == 0 {
            return Err(StartError::NoSheets);
        }
        match requested {
            Some(name) => {
                if find_sheet(&sheets, name.as_str()).is_none() {
                    let available = available_names(&sheets);
                    return Err(StartError::NotFound { requested: name, available });
                }
                Ok(App::new(sheets, Some(name)))
            },
            None => Ok(App::new(sheets, None)),
        }
    }

    /// The selected cheatsheet, if the selection points at one.
    pub fn current_sheet(&self) -> (r: Option<&CheatSheet>)
        ensures
            self.selected_sheet < self.sheets.len() ==> r == Some(
                &self.sheets@[self.selected_sheet as int],
            ),
            self.selected_sheet >= self.sheets.len() ==> r is None,
    {
        if self.selected_sheet < self.sheets.len() {
            Some(&self.sheets[self.selected_sheet])
        } else {
            None
        }
    }

    /// Applies one key of filter entry.
    fn filter_key(&mut self, key: Key)
        ensures
            final(self)@ == old(self)@.filter_step(key),
            final(self).sheets == old(self).sheets,
    {
        match key {
            Key::Esc => {
                self.filtering = false;
                self.filter_query = String::new();
            },
            Key::Backspace => {
                let _ = pop_char(&mut self.filter_query);
            },
            Key::Char(c) => {
                push_char(&mut self.filter_query, c);
            },
            _ => {},
        }
    }

    /// Applies one key while the list of cheatsheets is shown.
    fn browse_key(&mut self, key: Key)
        ensures
            final(self)@ == old(self)@.browse_step(key),
            final(self).sheets == old(self).sheets,
    {
        match key {
            Key::Char('q') | Key::Esc => {
                self.should_quit = true;
            },
            Key::Char('j') | Key::Down => {
                if self.selected_sheet < self.sheets.len() && self.selected_sheet + 1
                    < self.sheets.len() {
                    self.selected_sheet = self.selected_sheet + 1;
                    self.scroll_offset = 0;
                }
            },
            Key::Char('k') | Key::Up => {
                if self.selected_sheet > 0 {
                    self.selected_sheet = self.selected_sheet - 1;
                }
                self.scroll_offset = 0;
            },
            Key::Enter => {
                self.mode = AppMode::Viewer;
                self.scroll_offset = 0;
            },
            Key::Char('/') => {
                self.filtering = true;
                self.filter_query = String::new();
            },
            _ => {},
        }
    }

    /// Applies one key while one cheatsheet is shown.
    fn view_key(&mut self, key: Key)
        ensures
            final(self)@ == old(self)@.view_step(key),
            final(self).sheets == old(self).sheets,
    {
        match key {
            Key::Char('q') | Key::Esc => {
                self.should_quit = true;
            },
            Key::Char('j') | Key::Down => {
                if self.scroll_offset < usize::MAX {
                    self.scroll_offset = self.scroll_offset + 1;
                }
            },
            Key::Char('k') | Key::Up => {
                if self.scroll_offset > 0 {
                    self.scroll_offset = self.scroll_offset - 1;
                }
            },
            Key::Char('/') => {
                self.filtering = true;
                self.filter_query = String::new();
            },
            _ => {},
        }
    }

    /// Applies one key event to the state and says whether the loop goes on.
    /// The cheatsheets themselves are never touched.
    pub fn handle_key(&mut self, input: KeyInput) -> (action: LoopAction)
        ensures
            final(self)@ == old(self)@.step(input),
            final(self).sheets == old(self).sheets,
            old(self).wf() ==> final(self).wf(),
            old(self)@.quit ==> final(self)@.quit,
            action == LoopAction::Quit <==> final(self)@.quit,
    {
        if input.pressed {
            if self.filtering {
                self.filter_key(input.key);
            } else {
                match self.mode {
                    AppMode::Browser => self.browse_key(input.key),
                    AppMode::Viewer => self.view_key(input.key),
                }
            }
        }
        if self.should_quit {
            LoopAction::Quit
        } else {
            LoopAction::Continue
        }
    }
}

} // verus!
