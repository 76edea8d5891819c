//! The document model: a cheatsheet, its sections and their shortcut rows.

use vstd::prelude::*;
use crate::text::{has_substring, lowercase, occurs_in, to_lower};

verus! {

/// One pair of a key combination and what it does.
#[derive(Clone, Debug, PartialEq, Eq)]
pub struct ShortcutRow {
    pub shortcut: String,
    pub description: String,
}

/// A group of rows under one sub-heading; the heading may be empty.
#[derive(Clone, Debug, PartialEq, Eq)]
pub struct Section {
    pub header: String,
    pub rows: Vec<ShortcutRow>,
}

/// One loaded cheatsheet.
#[derive(Clone, Debug, PartialEq, Eq)]
pub struct CheatSheet {
    pub name: String,
    pub title: String,
    pub sections: Vec<Section>,
}

/// The mathematical content of a `ShortcutRow`.
pub struct RowView {
    pub shortcut: Seq<char>,
    pub description: Seq<char>,
}

/// The mathematical content of a `Section`.
pub struct SectionView {
    pub header: Seq<char>,
    pub rows: Seq<RowView>,
}

/// The mathematical content of a `CheatSheet`.
pub struct SheetView {
    pub name: Seq<char>,
    pub title: Seq<char>,
    pub sections: Seq<SectionView>,
}

/// The contents of a list of rows.
pub open spec fn rows_view(rows: Seq<ShortcutRow>) -> Seq<RowView> {
    rows.map_values(|r: ShortcutRow| r@)
}

/// The contents of a list of sections.
pub open spec fn sections_view(sections: Seq<Section>) -> Seq<SectionView> {
    sections.map_values(|s: Section| s@)
}

/// The contents of a list of cheatsheets.
pub open spec fn sheets_view(sheets: Seq<CheatSheet>) -> Seq<SheetView> {
    sheets.map_values(|s: CheatSheet| s@)
}

impl View for ShortcutRow {
    type V = RowView;

    open spec fn view(&self) -> RowView {
        RowView { shortcut: self.shortcut@, description: self.description@ }
    }
}

impl View for Section {
    type V = SectionView;

    open spec fn view(&self) -> SectionView {
        SectionView { header: self.header@, rows: rows_view(self.rows@) }
    }
}

impl View for CheatSheet {
    type V = SheetView;

    open spec fn view(&self) -> SheetView {
        SheetView {
            name: self.name@,
            title: self.title@,
            sections: sections_view(self.sections@),
        }
    }
}

/// The query, already in lowercase, is part of one of the two fields, already
/// in lowercase.
pub open spec fn folded_fields_match(
    shortcut: Seq<char>,
    description: Seq<char>,
    query: Seq<char>,
) -> bool {
    occurs_in(query, shortcut) || occurs_in(query, description)
}

impl RowView {
    /// A row matches the empty query, and any query that is part of its
    /// shortcut or of its description when case is set aside.
    pub open spec fn matches(self, query: Seq<char>) -> bool {
        query.len() == 0 || folded_fields_match(
            lowercase(self.shortcut),
            lowercase(self.description),
            lowercase(query),
        )
    }
}

/// Every row passes the empty filter.
pub proof fn lemma_empty_query_matches(row: RowView)
    ensures
        row.matches(Seq::empty()),
{
}

/// A query passes as soon as its lowercase form stands somewhere in the
/// lowercase form of one of the two fields, and only then, unless it is empty.
pub proof fn lemma_match_is_folded_substring(row: RowView, query: Seq<char>)
    requires
        query.len() > 0,
    ensures
        row.matches(query) <==> (occurs_in(lowercase(query), lowercase(row.shortcut)) || occurs_in(
            lowercase(query),
            lowercase(row.description),
        )),
{
}

/// Substring test on texts that were put in lowercase beforehand.
pub fn folded_match(shortcut: &str, description: &str, query: &str) -> (r: bool)
    ensures
        r == folded_fields_match(shortcut@, description@, query@),
{
    has_substring(shortcut, query) || has_substring(description, query)
}

impl ShortcutRow {
    /// Whether the row passes the filter `query`.
    pub fn matches_query(&self, query: &str) -> (r: bool)
        ensures
            r == self@.matches(query@),
            query@.len() == 0 ==> r,
    {
        if query.is_empty() {
            return true;
        }
        let folded = to_lower(query);
        let shortcut = to_lower(self.shortcut.as_str());
        let description = to_lower(self.description.as_str());
        folded_match(shortcut.as_str(), description.as_str(), folded.as_str())
    }
}

} // verus!
