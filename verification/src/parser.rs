//! Building a cheatsheet from the tree of a markdown text.

use vstd::prelude::*;
use vstd::string::StringExecFns;
use vstd::utf8::{decode_utf8, encode_utf8_decode_utf8, valid_utf8};
use crate::markdown::{decode_markdown, markdown_tree, MdNode, NodeKind};
use crate::sheet::{
    rows_view, sections_view, CheatSheet, RowView, Section, SectionView, SheetView, ShortcutRow,
};
use crate::text::{push_char, trim_of, trimmed, utf8_text};

verus! {

/// Why a document could not be read.
#[derive(Clone, Copy, Debug, PartialEq, Eq)]
pub enum ParseError {
    /// The bytes are not valid UTF-8.
    InvalidEncoding,
}

/// The text that reports a parse error to the user.
pub open spec fn parse_error_text(e: ParseError) -> Seq<char> {
    match e {
        ParseError::InvalidEncoding => "document is not valid UTF-8"@,
    }
}

impl ParseError {
    /// The text that reports the error to the user.
    pub fn message(&self) -> (text: String)
        ensures
            text@ == parse_error_text(*self),
    {
        match self {
            ParseError::InvalidEncoding => String::from_str("document is not valid UTF-8"),
        }
    }
}

/// What a node itself adds to extracted text: its literal for text and code,
/// one space for a line break, nothing otherwise.
pub open spec fn own_text(kind: NodeKind) -> Seq<char> {
    match kind {
        NodeKind::Text(t) => t@,
        NodeKind::Code(c) => c@,
        NodeKind::LineBreak => seq![' '],
        _ => Seq::empty(),
    }
}

/// The text of a subtree, depth first: the node's own text, then the text of
/// each child in order.
pub open spec fn text_of(node: MdNode) -> Seq<char>
    decreases node, node.children.len() + 1,
{
    own_text(node.kind) + children_text(node, node.children.len() as nat)
}

/// The text of the first `n` children of a node, one after the other.
pub open spec fn children_text(node: MdNode, n: nat) -> Seq<char>
    decreases node, n,
{
    if n == 0 || n > node.children.len() {
        Seq::empty()
    } else {
        children_text(node, (n - 1) as nat) + text_of(node.children[n - 1])
    }
}

/// The node is the header row of a table.
pub open spec fn is_header_row(node: MdNode) -> bool {
    node.kind matches NodeKind::TableRow(header) && header
}

/// The text of a table cell: what its subtree holds, trimmed.
pub open spec fn cell_text(cell: MdNode) -> Seq<char> {
    trim_of(text_of(cell))
}

/// The shortcut row that a child of a table gives: none for the header row and
/// for a row of fewer than two cells; else the first two cells, whatever
/// follows them.
pub open spec fn row_of(row: MdNode) -> Option<RowView> {
    if is_header_row(row) || row.children.len() < 2 {
        None
    } else {
        Some(
            RowView {
                shortcut: cell_text(row.children[0]),
                description: cell_text(row.children[1]),
            },
        )
    }
}

/// The shortcut rows that a sequence of row nodes gives, in their order.
pub open spec fn shortcut_rows(nodes: Seq<MdNode>) -> Seq<RowView> {
    nodes.filter_map(|row: MdNode| row_of(row))
}

/// The shortcut rows of a table, in the order of its rows.
pub open spec fn table_rows(table: MdNode) -> Seq<RowView> {
    shortcut_rows(table.children@)
}

/// The rows of a table that are not its header row.
pub open spec fn data_rows(nodes: Seq<MdNode>) -> Seq<MdNode> {
    nodes.filter(|row: MdNode| !is_header_row(row))
}

/// What the walk over a document knows after some of its nodes.
pub struct Progress {
    /// The text of the last level-1 heading so far; empty before the first.
    pub title: Seq<char>,
    /// The text of the last level-2 heading so far; empty before the first.
    pub header: Seq<char>,
    /// The sections so far.
    pub sections: Seq<SectionView>,
}

/// The walk takes in one node. A level-1 heading sets the title, a level-2
/// heading the header for the tables that follow, and a table with at least
/// one shortcut row adds a section under the header in force. Nothing else
/// matters.
pub open spec fn absorb(p: Progress, node: MdNode) -> Progress {
    match node.kind {
        NodeKind::Heading(level) => if level == 1 {
            Progress { title: text_of(node), ..p }
        } else if level == 2 {
            Progress { header: text_of(node), ..p }
        } else {
            p
        },
        NodeKind::Table => if table_rows(node).len() > 0 {
            Progress {
                sections: p.sections.push(
                    SectionView { header: p.header, rows: table_rows(node) },
                ),
                ..p
            }
        } else {
            p
        },
        _ => p,
    }
}

/// The walk over a sequence of nodes, first to last.
pub open spec fn walk(nodes: Seq<MdNode>) -> Progress
    decreases nodes.len(),
{
    if nodes.len() == 0 {
        Progress { title: Seq::empty(), header: Seq::empty(), sections: Seq::empty() }
    } else {
        absorb(walk(nodes.drop_last()), nodes.last())
    }
}

/// The cheatsheet that a document tree gives under the name `name`: the walk
/// over the root's children, with the name as title if the walk found none.
pub open spec fn sheet_of(root: MdNode, name: Seq<char>) -> SheetView {
    let end = walk(root.children@);
    SheetView {
        name,
        title: if end.title.len() == 0 {
            name
        } else {
            end.title
        },
        sections: end.sections,
    }
}

/// Every section of a cheatsheet has at least one row.
pub open spec fn sections_have_rows(sections: Seq<SectionView>) -> bool {
    forall|k: int| 0 <= k < sections.len() ==> (#[trigger] sections[k]).rows.len() > 0
}

/// One more row node adds its shortcut row, if it gives one, at the end.
pub proof fn lemma_shortcut_rows_push(nodes: Seq<MdNode>, row: MdNode)
    ensures
        shortcut_rows(nodes.push(row)) == match row_of(row) {
            Some(found) => shortcut_rows(nodes).push(found),
            None => shortcut_rows(nodes),
        },
{
    let longer = nodes.push(row);
    assert(longer.drop_last() =~= nodes);
    if let Some(found) = row_of(row) {
        assert(shortcut_rows(nodes) + seq![found] =~= shortcut_rows(nodes).push(found));
    }
}

/// In a table whose data rows all have two cells or more, every data row
/// gives exactly one shortcut row, and the shortcut rows stand in the order
/// of the data rows.
pub proof fn lemma_two_column_rows(nodes: Seq<MdNode>)
    requires
        forall|i: int|
            0 <= i < nodes.len() && !is_header_row(#[trigger] nodes[i])
                ==> nodes[i].children.len() >= 2,
    ensures
        shortcut_rows(nodes).len() == data_rows(nodes).len(),
        forall|k: int|
            0 <= k < data_rows(nodes).len() ==> row_of(#[trigger] data_rows(nodes)[k]) == Some(
                shortcut_rows(nodes)[k],
            ),
    decreases nodes.len(),
{
    reveal(Seq::filter);
    if nodes.len() > 0 {
        let front = nodes.drop_last();
        let row = nodes.last();
        assert forall|i: int| 0 <= i < front.len() && !is_header_row(#[trigger] front[i]) implies front[i].children.len() >= 2 by {
            assert(front[i] == nodes[i]);
        }
        lemma_two_column_rows(front);
        assert(front.push(row) =~= nodes);
        lemma_shortcut_rows_push(front, row);
    }
}

/// A shortcut row never comes from the header row or from a row of fewer than
/// two cells: each one is what some data row of two cells or more gives.
pub proof fn lemma_rows_come_from_full_rows(nodes: Seq<MdNode>, k: int)
    requires
        0 <= k < shortcut_rows(nodes).len(),
    ensures
        exists|i: int|
            0 <= i < nodes.len() && !is_header_row(#[trigger] nodes[i]) && nodes[i].children.len()
                >= 2 && row_of(nodes[i]) == Some(shortcut_rows(nodes)[k]),
    decreases nodes.len(),
{
    if nodes.len() > 0 {
        let front = nodes.drop_last();
        let row = nodes.last();
        assert(front.push(row) =~= nodes);
        lemma_shortcut_rows_push(front, row);
        if k < shortcut_rows(front).len() {
            lemma_rows_come_from_full_rows(front, k);
            let i = choose|i: int|
                0 <= i < front.len() && !is_header_row(#[trigger] front[i]) && front[i].children.len()
                    >= 2 && row_of(front[i]) == Some(shortcut_rows(front)[k]);
            assert(nodes[i] == front[i]);
        } else {
            assert(nodes[nodes.len() - 1] == row);
        }
    }
}

/// A table without shortcut rows gives no section: every section that the
/// walk collects has at least one row.
pub proof fn lemma_walk_sections_have_rows(nodes: Seq<MdNode>)
    ensures
        sections_have_rows(walk(nodes).sections),
    decreases nodes.len(),
{
    if nodes.len() > 0 {
        lemma_walk_sections_have_rows(nodes.drop_last());
    }
}

/// Adds the text of the subtree at `node` to `buf`.
pub fn collect_text(node: &MdNode, buf: &mut String)
    ensures
        final(buf)@ == old(buf)@ + text_of(*node),
    decreases node,
{
    match &node.kind {
        NodeKind::Text(t) => buf.append(t.as_str()),
        NodeKind::Code(c) => buf.append(c.as_str()),
        NodeKind::LineBreak => push_char(buf, ' '),
        _ => {},
    }
    let ghost start = buf@;
    proof {
        assert(old(buf)@.push(' ') =~= old(buf)@ + seq![' ']);
        assert(old(buf)@ + Seq::<char>::empty() =~= old(buf)@);
        assert(start + children_text(*node, 0) =~= start);
    }
    let mut i: usize = 0;
    while i < node.children.len()
        invariant
            i <= node.children.len(),
            buf@ == start + children_text(*node, i as nat),
        decreases node.children.len() - i,
    {
        collect_text(&node.children[i], buf);
        proof {
            assert(buf@ =~= start + children_text(*node, (i + 1) as nat));
        }
        i += 1;
    }
    proof {
        assert(buf@ =~= old(buf)@ + text_of(*node));
    }
}

/// The text of the subtree at `node`.
pub fn extract_text(node: &MdNode) -> (text: String)
    ensures
        text@ == text_of(*node),
{
    let mut text = String::new();
    collect_text(node, &mut text);
    proof {
        assert(Seq::<char>::empty() + text_of(*node) =~= text_of(*node));
    }
    text
}

/// The trimmed texts of the cells of a row, in order.
fn cell_texts(row: &MdNode) -> (cells: Vec<String>)
    ensures
        cells.len() == row.children.len(),
        forall|k: int| 0 <= k < cells.len() ==> (#[trigger] cells[k])@ == cell_text(row.children[k]),
{
    let mut cells: Vec<String> = Vec::new();
    let mut j: usize = 0;
    while j < row.children.len()
        invariant
            j <= row.children.len(),
            cells.len() == j,
            forall|k: int| 0 <= k < j ==> (#[trigger] cells[k])@ == cell_text(row.children[k]),
        decreases row.children.len() - j,
    {
        let raw = extract_text(&row.children[j]);
        cells.push(String::from_str(trimmed(raw.as_str())));
        j += 1;
    }
    cells
}

/// The shortcut rows of a table node: one for each row that is not the header
/// row and has two cells or more, in table order.
pub fn parse_table_rows(table: &MdNode) -> (rows: Vec<ShortcutRow>)
    ensures
        rows_view(rows@) == table_rows(*table),
{
    let mut rows: Vec<ShortcutRow> = Vec::new();
    let ghost nodes = table.children@;
    proof {
        assert(nodes.take(0) =~= Seq::<MdNode>::empty());
        assert(rows_view(rows@) =~= shortcut_rows(nodes.take(0)));
    }
    let mut i: usize = 0;
    while i < table.children.len()
        invariant
            i <= table.children.len(),
            nodes == table.children@,
            rows_view(rows@) == shortcut_rows(nodes.take(i as int)),
        decreases table.children.len() - i,
    {
        let row = &table.children[i];
        let header = match &row.kind {
            NodeKind::TableRow(h) => *h,
            _ => false,
        };
        proof {
            assert(nodes.take(i + 1) =~= nodes.take(i as int).push(*row));
            lemma_shortcut_rows_push(nodes.take(i as int), *row);
        }
        if !header {
            let cells = cell_texts(row);
            if cells.len() >= 2 {
                let found = ShortcutRow {
                    shortcut: cells[0].clone(),
                    description: cells[1].clone(),
                };
                proof {
                    assert(row_of(*row) == Some(found@));
                    assert(rows_view(rows@.push(found)) =~= rows_view(rows@).push(found@));
                }
                rows.push(found);
            }
        }
        i += 1;
    }
    proof {
        assert(nodes.take(i as int) =~= nodes);
    }
    rows
}

/// The cheatsheet that the document tree at `root` gives under the name
/// `name`. Missing headings and tables are no error: a document without a
/// level-1 heading takes the name as its title, one without tables has no
/// sections, and a table before any level-2 heading has an empty header.
pub fn sheet_from_tree(root: &MdNode, name: &str) -> (sheet: CheatSheet)
    ensures
        sheet@ == sheet_of(*root, name@),
        sections_have_rows(sheet@.sections),
{
    let mut title = String::new();
    let mut sections: Vec<Section> = Vec::new();
    let mut current_header = String::new();
    let ghost nodes = root.children@;
    proof {
        assert(nodes.take(0) =~= Seq::<MdNode>::empty());
        assert(sections_view(sections@) =~= Seq::<SectionView>::empty());
    }
    let mut i: usize = 0;
    while i < root.children.len()
        invariant
            i <= root.children.len(),
            nodes == root.children@,
            title@ == walk(nodes.take(i as int)).title,
            current_header@ == walk(nodes.take(i as int)).header,
            sections_view(sections@) == walk(nodes.take(i as int)).sections,
        decreases root.children.len() - i,
    {
        let node = &root.children[i];
        proof {
            assert(nodes.take(i + 1).drop_last() =~= nodes.take(i as int));
            assert(nodes.take(i + 1).last() == *node);
        }
        match &node.kind {
            NodeKind::Heading(level) => {
                let text = extract_text(node);
                if *level == 1 {
                    title = text;
                } else if *level == 2 {
                    current_header = text;
                }
            },
            NodeKind::Table => {
                let rows = parse_table_rows(node);
                if rows.len() > 0 {
                    let section = Section { header: current_header.clone(), rows };
                    proof {
                        assert(sections_view(sections@.push(section)) =~= sections_view(
                            sections@,
                        ).push(section@));
                    }
                    sections.push(section);
                }
            },
            _ => {},
        }
        i += 1;
    }
    proof {
        assert(nodes.take(i as int) =~= nodes);
        lemma_walk_sections_have_rows(nodes);
    }
    let name_owned = String::from_str(name);
    if title.as_str().is_empty() {
        title = name_owned.clone();
    }
    CheatSheet { name: name_owned, title, sections }
}

/// The cheatsheet that a markdown text gives under the name `name`.
pub fn parse_text(text: &str, name: &str) -> (sheet: CheatSheet)
    ensures
        sheet@ == sheet_of(markdown_tree(text@), name@),
{
    let root = decode_markdown(text);
    sheet_from_tree(&root, name)
}

/// The cheatsheet that the bytes of a markdown document give under the name
/// `name`. The only failure is a document that is not valid UTF-8.
pub fn parse_cheatsheet(raw: &[u8], name: &str) -> (r: Result<CheatSheet, ParseError>)
    ensures
        !valid_utf8(raw@) <==> r == Err::<CheatSheet, ParseError>(ParseError::InvalidEncoding),
        valid_utf8(raw@) <==> r is Ok,
        r matches Ok(sheet) ==> sheet@ == sheet_of(markdown_tree(decode_utf8(raw@)), name@),
{
    match utf8_text(raw) {
        Some(text) => {
            proof {
                encode_utf8_decode_utf8(text@);
            }
            Ok(parse_text(text, name))
        },
        None => Err(ParseError::InvalidEncoding),
    }
}

} // verus!
