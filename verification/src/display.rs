//! The projection of a cheatsheet onto display lines, and the window that a
//! scroll offset and a visible height cut out of them.

use vstd::prelude::*;
use vstd::slice::slice_subrange;
use crate::sheet::{CheatSheet, RowView, Section, SectionView, SheetView};

verus! {

/// One line of a projected cheatsheet, whatever the size of the screen.
#[derive(Clone, Debug, PartialEq, Eq)]
pub enum DisplayLine {
    Title(String),
    SectionHeader(String),
    ColumnHeader,
    DataRow(String, String),
    Blank,
}

/// The mathematical content of a `DisplayLine`.
pub enum LineView {
    Title(Seq<char>),
    SectionHeader(Seq<char>),
    ColumnHeader,
    DataRow(Seq<char>, Seq<char>),
    Blank,
}

impl View for DisplayLine {
    type V = LineView;

    open spec fn view(&self) -> LineView {
        match self {
            DisplayLine::Title(t) => LineView::Title(t@),
            DisplayLine::SectionHeader(h) => LineView::SectionHeader(h@),
            DisplayLine::ColumnHeader => LineView::ColumnHeader,
            DisplayLine::DataRow(s, d) => LineView::DataRow(s@, d@),
            DisplayLine::Blank => LineView::Blank,
        }
    }
}

/// The contents of a list of display lines.
pub open spec fn lines_view(lines: Seq<DisplayLine>) -> Seq<LineView> {
    lines.map_values(|l: DisplayLine| l@)
}

/// The data line that shows a row.
pub open spec fn row_line(row: RowView) -> LineView {
    LineView::DataRow(row.shortcut, row.description)
}

/// The data lines of the rows that pass the filter, in table order.
pub open spec fn row_lines(rows: Seq<RowView>, query: Seq<char>) -> Seq<LineView> {
    rows.filter(|r: RowView| r.matches(query)).map_values(|r: RowView| row_line(r))
}

/// A section's lines: its header, a blank, the column header, the rows that
/// pass the filter, and a closing blank. The column header stays even when no
/// row passes.
pub open spec fn section_lines(section: SectionView, query: Seq<char>) -> Seq<LineView> {
    seq![LineView::SectionHeader(section.header), LineView::Blank, LineView::ColumnHeader]
        + row_lines(section.rows, query) + seq![LineView::Blank]
}

/// The lines of several sections, one after the other.
pub open spec fn sections_lines(sections: Seq<SectionView>, query: Seq<char>) -> Seq<LineView> {
    sections.map_values(|s: SectionView| section_lines(s, query)).flatten()
}

/// A cheatsheet's lines under a filter: the title, a blank, then each section
/// in document order.
pub open spec fn project_lines(sheet: SheetView, query: Seq<char>) -> Seq<LineView> {
    seq![LineView::Title(sheet.title), LineView::Blank] + sections_lines(sheet.sections, query)
}

/// The greatest offset at which a full window still ends inside the lines.
pub open spec fn max_offset(len: nat, height: nat) -> nat {
    if len >= height {
        (len - height) as nat
    } else {
        0
    }
}

/// The scroll offset that is in effect: the stored one, held back to
/// `max_offset`.
pub open spec fn clamped_offset(len: nat, scroll: nat, height: nat) -> nat {
    if scroll <= max_offset(len, height) {
        scroll
    } else {
        max_offset(len, height)
    }
}

/// Where the window ends: `height` lines after its start, or at the last line.
pub open spec fn window_end(len: nat, scroll: nat, height: nat) -> nat {
    let start = clamped_offset(len, scroll, height);
    if start + height <= len {
        start + height
    } else {
        len
    }
}

/// The lines that are visible at a scroll offset on a screen of `height` lines.
pub open spec fn window_of<A>(lines: Seq<A>, scroll: nat, height: nat) -> Seq<A> {
    lines.subrange(
        clamped_offset(lines.len(), scroll, height) as int,
        window_end(lines.len(), scroll, height) as int,
    )
}

/// Adding one row to a table adds its data line if and only if the row passes
/// the filter.
pub proof fn lemma_row_lines_push(rows: Seq<RowView>, row: RowView, query: Seq<char>)
    ensures
        row_lines(rows.push(row), query) == if row.matches(query) {
            row_lines(rows, query).push(row_line(row))
        } else {
            row_lines(rows, query)
        },
{
    let pred = |r: RowView| r.matches(query);
    rows.lemma_filter_push(row, pred);
    if row.matches(query) {
        assert(rows.filter(pred).push(row).map_values(|r: RowView| row_line(r))
            =~= rows.filter(pred).map_values(|r: RowView| row_line(r)).push(row_line(row)));
    }
}

/// Adding one section to a document adds that section's lines at the end.
pub proof fn lemma_sections_lines_push(
    sections: Seq<SectionView>,
    section: SectionView,
    query: Seq<char>,
)
    ensures
        sections_lines(sections.push(section), query) == sections_lines(sections, query)
            + section_lines(section, query),
{
    let each = |s: SectionView| section_lines(s, query);
    assert(sections.push(section).map_values(each) =~= sections.map_values(each).push(
        each(section),
    ));
    sections.map_values(each).lemma_flatten_push(each(section));
}

/// A window never holds more lines than the screen has, starts at the clamped
/// offset and ends inside the lines; a screen without lines shows nothing.
pub proof fn lemma_window_bounds<A>(lines: Seq<A>, scroll: nat, height: nat)
    ensures
        clamped_offset(lines.len(), scroll, height) <= scroll,
        clamped_offset(lines.len(), scroll, height) <= lines.len(),
        window_of(lines, scroll, height).len() == if height <= lines.len() {
            height
        } else {
            lines.len()
        },
        height == 0 ==> window_of(lines, scroll, height) == Seq::<A>::empty(),
        forall|i: int|
            0 <= i < window_of(lines, scroll, height).len() ==> #[trigger] window_of(
                lines,
                scroll,
                height,
            )[i] == lines[clamped_offset(lines.len(), scroll, height) + i],
{
    if height == 0 {
        assert(window_of(lines, scroll, height) =~= Seq::<A>::empty());
    }
}

/// Projection is a function of the cheatsheet and the filter: two results for
/// equal arguments hold the same lines.
pub proof fn lemma_projection_is_determined(
    first: Seq<DisplayLine>,
    second: Seq<DisplayLine>,
    sheet: SheetView,
    query: Seq<char>,
)
    requires
        lines_view(first) == project_lines(sheet, query),
        lines_view(second) == project_lines(sheet, query),
    ensures
        lines_view(first) == lines_view(second),
        first.len() == second.len(),
        forall|i: int| 0 <= i < first.len() ==> (#[trigger] first[i])@ == second[i]@,
{
    assert(lines_view(first).len() == first.len());
    assert(lines_view(second).len() == second.len());
    assert forall|i: int| 0 <= i < first.len() implies (#[trigger] first[i])@ == second[i]@ by {
        assert(lines_view(first)[i] == first[i]@);
        assert(lines_view(second)[i] == second[i]@);
    }
}

/// The lines of one section's rows that pass the filter, added to `lines`.
fn push_row_lines(lines: &mut Vec<DisplayLine>, section: &Section, query: &str)
    ensures
        lines_view(final(lines)@) == lines_view(old(lines)@) + row_lines(section@.rows, query@),
{
    let ghost before = lines_view(lines@);
    let ghost rows = section@.rows;
    let mut j: usize = 0;
    proof {
        reveal(Seq::filter);
        assert(rows.take(0) =~= Seq::<RowView>::empty());
        assert(row_lines(rows.take(0), query@) =~= Seq::<LineView>::empty());
        assert(before + row_lines(rows.take(0), query@) =~= before);
    }
    while j < section.rows.len()
        invariant
            j <= section.rows.len(),
            rows == section@.rows,
            rows.len() == section.rows.len(),
            lines_view(lines@) == before + row_lines(rows.take(j as int), query@),
        decreases section.rows.len() - j,
    {
        let row = &section.rows[j];
        proof {
            assert(rows.take(j + 1) =~= rows.take(j as int).push(row@));
            lemma_row_lines_push(rows.take(j as int), row@, query@);
        }
        if row.matches_query(query) {
            let line = DisplayLine::DataRow(row.shortcut.clone(), row.description.clone());
            proof {
                assert(line@ == row_line(row@));
                assert(lines_view(lines@.push(line)) =~= lines_view(lines@).push(line@));
            }
            lines.push(line);
        }
        j += 1;
    }
    proof {
        assert(rows.take(j as int) =~= rows);
    }
}

/// The display lines of `sheet` under the filter `query`. The result depends
/// on the two arguments alone: equal arguments give equal lines.
pub fn project(sheet: &CheatSheet, query: &str) -> (lines: Vec<DisplayLine>)
    ensures
        lines_view(lines@) == project_lines(sheet@, query@),
{
    let mut lines: Vec<DisplayLine> = Vec::new();
    lines.push(DisplayLine::Title(sheet.title.clone()));
    lines.push(DisplayLine::Blank);
    let ghost head = seq![LineView::Title(sheet@.title), LineView::Blank];
    let ghost sections = sheet@.sections;
    proof {
        assert(lines_view(lines@) =~= head);
        assert(sections.take(0) =~= Seq::<SectionView>::empty());
        assert(sections_lines(sections.take(0), query@) =~= Seq::<LineView>::empty());
        assert(head + sections_lines(sections.take(0), query@) =~= head);
    }
    let mut i: usize = 0;
    while i < sheet.sections.len()
        invariant
            i <= sheet.sections.len(),
            sections == sheet@.sections,
            sections.len() == sheet.sections.len(),
            head == seq![LineView::Title(sheet@.title), LineView::Blank],
            lines_view(lines@) == head + sections_lines(sections.take(i as int), query@),
        decreases sheet.sections.len() - i,
    {
        let section = &sheet.sections[i];
        let ghost start = lines_view(lines@);
        lines.push(DisplayLine::SectionHeader(section.header.clone()));
        lines.push(DisplayLine::Blank);
        lines.push(DisplayLine::ColumnHeader);
        proof {
            assert(lines_view(lines@) =~= start + seq![
                LineView::SectionHeader(section@.header),
                LineView::Blank,
                LineView::ColumnHeader,
            ]);
        }
        push_row_lines(&mut lines, section, query);
        let ghost shown = lines_view(lines@);
        lines.push(DisplayLine::Blank);
        proof {
            assert(lines_view(lines@) =~= shown.push(LineView::Blank));
            assert(lines_view(lines@) =~= start + section_lines(section@, query@));
            assert(sections.take(i + 1) =~= sections.take(i as int).push(section@));
            lemma_sections_lines_push(sections.take(i as int), section@, query@);
        }
        i += 1;
    }
    proof {
        assert(sections.take(i as int) =~= sections);
    }
    lines
}

/// Where the window starts and ends among `total` lines: the clamped offset,
/// and at most `visible_height` lines further.
pub fn window_range(total: usize, scroll_offset: usize, visible_height: usize) -> (r: (
    usize,
    usize,
))
    ensures
        r.0 == clamped_offset(total as nat, scroll_offset as nat, visible_height as nat),
        r.1 == window_end(total as nat, scroll_offset as nat, visible_height as nat),
        r.0 <= r.1 <= total,
{
    let limit: usize = if total >= visible_height {
        total - visible_height
    } else {
        0
    };
    let offset: usize = if scroll_offset <= limit {
        scroll_offset
    } else {
        limit
    };
    let end: usize = if visible_height <= total - offset {
        offset + visible_height
    } else {
        total
    };
    (offset, end)
}

/// The visible part of `lines` and the offset in effect. The stored scroll
/// offset may lie beyond the end: it is clamped here, at the time of drawing.
pub fn window<'a>(lines: &'a [DisplayLine], scroll_offset: usize, visible_height: usize) -> (r: (
    &'a [DisplayLine],
    usize,
))
    ensures
        r.1 == clamped_offset(lines@.len(), scroll_offset as nat, visible_height as nat),
        r.0@ == window_of(lines@, scroll_offset as nat, visible_height as nat),
        visible_height == 0 ==> r.0@.len() == 0,
{
    let (offset, end) = window_range(lines.len(), scroll_offset, visible_height);
    (slice_subrange(lines, offset, end), offset)
}

} // verus!
