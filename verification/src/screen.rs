//! What the state puts on the screen: the names in the list, the visible
//! lines of the selected cheatsheet, and the status line.

use vstd::prelude::*;
use vstd::string::StringExecFns;
use crate::app::{sheet_names, App, AppMode, AppView};
use crate::display::{
    lines_view, project, project_lines, window_of, window_range, DisplayLine, LineView,
};

verus! {

/// How a part of the status line is meant to stand out.
#[derive(Clone, Copy, Debug, PartialEq, Eq)]
pub enum SpanRole {
    /// The filter prompt and the cursor.
    Marker,
    /// Text as typed.
    Plain,
    /// A hint.
    Hint,
}

/// One part of the status line.
#[derive(Clone, Debug, PartialEq, Eq)]
pub struct StatusSpan {
    pub text: String,
    pub role: SpanRole,
}

impl View for StatusSpan {
    type V = (Seq<char>, SpanRole);

    open spec fn view(&self) -> (Seq<char>, SpanRole) {
        (self.text@, self.role)
    }
}

/// The contents of a list of status spans.
pub open spec fn spans_view(spans: Seq<StatusSpan>) -> Seq<(Seq<char>, SpanRole)> {
    spans.map_values(|s: StatusSpan| s@)
}

/// The hint that is shown while no filter is being entered.
pub open spec fn mode_hint(mode: AppMode) -> Seq<char> {
    match mode {
        AppMode::Browser => " j/k: navigate  Enter: open  /: filter  q: quit"@,
        AppMode::Viewer => " j/k: scroll  /: filter  q: quit"@,
    }
}

/// The status line: during filter entry the prompt, the text so far, a
/// cursor and how to cancel; otherwise the hint of the mode.
pub open spec fn status_of(app: AppView) -> Seq<(Seq<char>, SpanRole)> {
    if app.filtering {
        seq![
            (" /"@, SpanRole::Marker),
            (app.filter, SpanRole::Plain),
            ("_"@, SpanRole::Marker),
            ("  "@, SpanRole::Plain),
            ("[Esc] cancel"@, SpanRole::Hint),
        ]
    } else {
        seq![(mode_hint(app.mode), SpanRole::Hint)]
    }
}

/// The lines of the selected cheatsheet that are on a screen of `height`
/// lines: its projection under the filter, windowed at the stored offset.
pub open spec fn visible_of(app: AppView, height: nat) -> Seq<LineView>
    recommends
        app.selected < app.sheets.len(),
{
    window_of(project_lines(app.sheets[app.selected as int], app.filter), app.scroll, height)
}

impl App {
    /// The names of all cheatsheets, for the list.
    pub fn document_names(&self) -> (names: Vec<String>)
        ensures
            names@.map_values(|n: String| n@) == sheet_names(self@.sheets),
    {
        let mut names: Vec<String> = Vec::new();
        let mut i: usize = 0;
        while i < self.sheets.len()
            invariant
                i <= self.sheets.len(),
                names.len() == i,
                forall|k: int| 0 <= k < i ==> (#[trigger] names[k])@ == self.sheets[k]@.name,
            decreases self.sheets.len() - i,
        {
            names.push(self.sheets[i].name.clone());
            i += 1;
        }
        proof {
            assert(names@.map_values(|n: String| n@) =~= sheet_names(self@.sheets));
        }
        names
    }

    /// The visible lines of the selected cheatsheet on a screen of
    /// `visible_height` lines, or `None` when the selection points at no
    /// cheatsheet. The stored scroll offset is read, never changed.
    pub fn visible_lines(&self, visible_height: usize) -> (r: Option<Vec<DisplayLine>>)
        ensures
            self@.selected >= self@.sheets.len() <==> r is None,
            r matches Some(lines) ==> lines_view(lines@) == visible_of(
                self@,
                visible_height as nat,
            ),
    {
        match self.current_sheet() {
            None => None,
            Some(sheet) => {
                let mut lines = project(sheet, self.filter_query.as_str());
                let ghost all = lines@;
                let (offset, end) = window_range(lines.len(), self.scroll_offset, visible_height);
                lines.truncate(end);
                let shown = lines.split_off(offset);
                proof {
                    assert(shown@ =~= all.subrange(offset as int, end as int));
                    assert(lines_view(all.subrange(offset as int, end as int)) =~= lines_view(
                        all,
                    ).subrange(offset as int, end as int));
                }
                Some(shown)
            },
        }
    }

    /// The parts of the status line, left to right.
    pub fn status_spans(&self) -> (spans: Vec<StatusSpan>)
        ensures
            spans_view(spans@) == status_of(self@),
    {
        let mut spans: Vec<StatusSpan> = Vec::new();
        if self.filtering {
            spans.push(StatusSpan { text: String::from_str(" /"), role: SpanRole::Marker });
            spans.push(StatusSpan { text: self.filter_query.clone(), role: SpanRole::Plain });
            spans.push(StatusSpan { text: String::from_str("_"), role: SpanRole::Marker });
            spans.push(StatusSpan { text: String::from_str("  "), role: SpanRole::Plain });
            spans.push(StatusSpan { text: String::from_str("[Esc] cancel"), role: SpanRole::Hint });
        } else {
            let hint = match self.mode {
                AppMode::Browser => String::from_str(
                    " j/k: navigate  Enter: open  /: filter  q: quit",
                ),
                AppMode::Viewer => String::from_str(" j/k: scroll  /: filter  q: quit"),
            };
            spans.push(StatusSpan { text: hint, role: SpanRole::Hint });
        }
        proof {
            assert(spans_view(spans@) =~= status_of(self@));
        }
        spans
    }
}

} // verus!
