use vstd::prelude::*;

use crate::pane::Cursor;

verus! {

/// The mode the editor is in; it decides what typed characters do.
#[derive(Debug, Clone, Copy, PartialEq, Eq)]
pub enum EditorMode {
    Insert,
    Normal,
    CommandInput,
    Visual,
}

/// The bar of open tabs.
#[derive(Debug, Clone)]
pub struct TabBar;

/// An input event, as far as the editor tells events apart.
#[derive(Debug, Clone, Copy, PartialEq, Eq)]
pub enum EditorEvent {
    /// Any device event.
    Device,
    /// A key was pressed or released.
    KeyboardInput,
    /// A character was typed.
    ReceivedCharacter(char),
    /// The window is asked to close.
    CloseRequested,
    /// The window was destroyed.
    Destroyed,
    /// Any other window event.
    OtherWindowEvent,
    /// Any other event.
    Other,
}

/// What typing `ch` in `mode` does: the next mode, and the character to
/// insert into the document, if any. In normal mode `:` starts command
/// input and other characters are ignored; in command input and visual
/// mode characters are ignored; in insert mode the character is inserted.
pub fn process_character_input(mode: EditorMode, ch: char) -> (r: (EditorMode, Option<char>))
    ensures
        mode == EditorMode::Normal ==> r == (if ch == ':' { EditorMode::CommandInput } else { EditorMode::Normal }, None::<char>),
        mode == EditorMode::CommandInput ==> r == (EditorMode::CommandInput, None::<char>),
        mode == EditorMode::Insert ==> r == (EditorMode::Insert, Some(ch)),
        mode == EditorMode::Visual ==> r == (EditorMode::Visual, None::<char>),
{
    match mode {
        EditorMode::Normal => {
            if ch == ':' {
                (EditorMode::CommandInput, None)
            } else {
                (EditorMode::Normal, None)
            }
        },
        EditorMode::CommandInput => (EditorMode::CommandInput, None),
        EditorMode::Insert => (EditorMode::Insert, Some(ch)),
        EditorMode::Visual => (EditorMode::Visual, None),
    }
}

/// Whether the editor keeps running after `event`: only a close request
/// or the destruction of the window stop it.
pub open spec fn keeps_running(event: EditorEvent) -> bool {
    !(event is CloseRequested || event is Destroyed)
}

/// What an event does in `mode`: whether the editor keeps running, the
/// next mode, and the character to insert, if any. Only typed characters
/// change the mode or insert.
pub fn process_event(mode: EditorMode, event: EditorEvent) -> (r: (bool, EditorMode, Option<char>))
    ensures
        r.0 == keeps_running(event),
        event matches EditorEvent::ReceivedCharacter(ch) ==> (r.1, r.2) == process_character_input_spec(mode, ch),
        !(event is ReceivedCharacter) ==> r.1 == mode && r.2 is None,
{
    match event {
        EditorEvent::ReceivedCharacter(ch) => {
            let (next, insert) = process_character_input(mode, ch);
            (true, next, insert)
        },
        EditorEvent::CloseRequested | EditorEvent::Destroyed => (false, mode, None),
        _ => (true, mode, None),
    }
}

/// The outcome of `process_character_input`, as a value.
pub open spec fn process_character_input_spec(mode: EditorMode, ch: char) -> (EditorMode, Option<char>) {
    match mode {
        EditorMode::Normal => (if ch == ':' { EditorMode::CommandInput } else { EditorMode::Normal }, None),
        EditorMode::CommandInput => (EditorMode::CommandInput, None),
        EditorMode::Insert => (EditorMode::Insert, Some(ch)),
        EditorMode::Visual => (EditorMode::Visual, None),
    }
}

/// The mode after the events, one after the other, starting in `mode`.
pub open spec fn mode_after(mode: EditorMode, events: Seq<EditorEvent>) -> EditorMode
    decreases events.len(),
{
    if events.len() == 0 {
        mode
    } else {
        match events.last() {
            EditorEvent::ReceivedCharacter(ch) => process_character_input_spec(mode_after(mode, events.drop_last()), ch).0,
            _ => mode_after(mode, events.drop_last()),
        }
    }
}

/// The characters the events insert, in order, starting in `mode`.
pub open spec fn inserts_after(mode: EditorMode, events: Seq<EditorEvent>) -> Seq<char>
    decreases events.len(),
{
    if events.len() == 0 {
        Seq::empty()
    } else {
        match events.last() {
            EditorEvent::ReceivedCharacter(ch) => match process_character_input_spec(mode_after(mode, events.drop_last()), ch).1 {
                Some(c) => inserts_after(mode, events.drop_last()).push(c),
                None => inserts_after(mode, events.drop_last()),
            },
            _ => inserts_after(mode, events.drop_last()),
        }
    }
}

/// Processes the events polled in one round, in order: returns whether the
/// editor keeps running, the mode afterwards and the characters to insert,
/// in order. Whether it keeps running is decided by the last event alone;
/// with no events it keeps running.
pub fn process_input(mode: EditorMode, events: &Vec<EditorEvent>) -> (r: (bool, EditorMode, Vec<char>))
    ensures
        r.0 == (events@.len() == 0 || keeps_running(events@.last())),
        r.1 == mode_after(mode, events@),
        r.2@ == inserts_after(mode, events@),
{
    let mut running = true;
    let mut current = mode;
    let mut inserts: Vec<char> = Vec::new();
    let mut i: usize = 0;
    while i < events.len()
        invariant
            i <= events.len(),
            running == (i == 0 || keeps_running(events@[i - 1])),
            current == mode_after(mode, events@.take(i as int)),
            inserts@ == inserts_after(mode, events@.take(i as int)),
        decreases events.len() - i,
    {
        let (keep, next, insert) = process_event(current, events[i]);
        proof {
            assert(events@.take(i + 1).drop_last() =~= events@.take(i as int));
            assert(events@.take(i + 1).last() == events@[i as int]);
        }
        running = keep;
        current = next;
        match insert {
            Some(c) => inserts.push(c),
            None => {},
        }
        i = i + 1;
    }
    proof {
        assert(events@.take(i as int) =~= events@);
    }
    (running, current, inserts)
}

/// How many columns the cursor moves when `ch` is inserted: `tab_width`
/// for a tab, one for any other character.
pub fn insert_advance(ch: char, tab_width: u8) -> (n: u32)
    ensures
        n == if ch == '\t' { tab_width as u32 } else { 1 },
{
    if ch == '\t' {
        tab_width as u32
    } else {
        1
    }
}

// ---------------------------------------------------------------------
// Laying out the visible lines of a pane
// ---------------------------------------------------------------------

/// How far the column moves past a character: a tab moves `tab_width`
/// columns, a line break none, any other character one.
pub open spec fn advance(c: char, tab_width: u8) -> nat {
    if c == '\n' {
        0
    } else if c == '\t' {
        tab_width as nat
    } else {
        1
    }
}

/// The characters that get a glyph: all but line breaks, spaces and tabs.
pub open spec fn is_drawn(c: char) -> bool {
    c != '\n' && c != ' ' && c != '\t'
}

/// The number of columns a line takes.
pub open spec fn line_width(line: Seq<char>, tab_width: u8) -> nat
    decreases line.len(),
{
    if line.len() == 0 {
        0
    } else {
        line_width(line.drop_last(), tab_width) + advance(line.last(), tab_width)
    }
}

/// A character to draw and the cell it is drawn in.
#[derive(Debug, Clone, Copy, PartialEq, Eq)]
pub struct PlacedChar {
    pub ch: char,
    /// column of the cell
    pub col: u32,
    /// row of the cell
    pub row: u32,
    /// the cell is the one the cursor is on
    pub at_cursor: bool,
}

/// The cells of the drawn characters of `line`, shown in `row` from
/// column `col0` on.
pub open spec fn line_cells(line: Seq<char>, col0: nat, row: nat, tab_width: u8, cursor: (u32, u32)) -> Seq<PlacedChar>
    decreases line.len(),
{
    if line.len() == 0 {
        Seq::empty()
    } else if is_drawn(line.last()) {
        line_cells(line.drop_last(), col0, row, tab_width, cursor).push(
            placed_at(line.last(), col0 + line_width(line.drop_last(), tab_width), row, cursor),
        )
    } else {
        line_cells(line.drop_last(), col0, row, tab_width, cursor)
    }
}

/// Character `c` drawn in cell (`col`, `row`).
pub open spec fn placed_at(c: char, col: nat, row: nat, cursor: (u32, u32)) -> PlacedChar {
    PlacedChar { ch: c, col: col as u32, row: row as u32, at_cursor: col == cursor.0 && row == cursor.1 }
}

/// The column line `i` starts at: the first line starts at `first_col`,
/// the others at column 0.
pub open spec fn start_col(i: int, first_col: nat) -> nat {
    if i == 0 {
        first_col
    } else {
        0
    }
}

/// The cells of the drawn characters of `lines`, line `i` in row `i`.
pub open spec fn pane_cells(lines: Seq<Vec<char>>, first_col: nat, tab_width: u8, cursor: (u32, u32)) -> Seq<PlacedChar>
    decreases lines.len(),
{
    if lines.len() == 0 {
        Seq::empty()
    } else {
        pane_cells(lines.drop_last(), first_col, tab_width, cursor) + line_cells(
            lines.last()@,
            start_col(lines.len() - 1, first_col),
            (lines.len() - 1) as nat,
            tab_width,
            cursor,
        )
    }
}

/// Every line ends at a column that a `u32` holds.
pub open spec fn columns_fit(lines: Seq<Vec<char>>, first_col: nat, tab_width: u8) -> bool {
    forall|i: int| 0 <= i < lines.len() ==> start_col(i, first_col) + line_width((#[trigger] lines[i])@, tab_width) <= u32::MAX
}

proof fn lemma_line_width_prefix(line: Seq<char>, j: int, tab_width: u8)
    requires
        0 <= j < line.len(),
    ensures
        line_width(line.take(j + 1), tab_width) == line_width(line.take(j), tab_width) + advance(line[j], tab_width),
{
    assert(line.take(j + 1).drop_last() =~= line.take(j));
}

proof fn lemma_line_width_monotone(line: Seq<char>, j: int, tab_width: u8)
    requires
        0 <= j <= line.len(),
    ensures
        line_width(line.take(j), tab_width) <= line_width(line, tab_width),
    decreases line.len() - j,
{
    if j < line.len() {
        lemma_line_width_prefix(line, j, tab_width);
        lemma_line_width_monotone(line, j + 1, tab_width);
    } else {
        assert(line.take(j) =~= line);
    }
}

/// Cell `a` comes before cell `b` in reading order.
pub open spec fn before(a: PlacedChar, b: PlacedChar) -> bool {
    a.row < b.row || (a.row == b.row && a.col < b.col)
}

/// The cells of one line are in `row`, left to right, each a drawn
/// character, and marked exactly when the cursor is on them.
proof fn lemma_line_cells_shape(line: Seq<char>, col0: nat, row: nat, tab_width: u8, cursor: (u32, u32))
    requires
        col0 + line_width(line, tab_width) <= u32::MAX,
        row <= u32::MAX,
    ensures
        ({
            let cells = line_cells(line, col0, row, tab_width, cursor);
            &&& forall|k: int| 0 <= k < cells.len() ==> {
                &&& (#[trigger] cells[k]).row == row
                &&& col0 <= cells[k].col
                &&& cells[k].col < col0 + line_width(line, tab_width)
                &&& is_drawn(cells[k].ch)
                &&& cells[k].at_cursor == (cells[k].col == cursor.0 && cells[k].row == cursor.1)
            }
            &&& forall|k1: int, k2: int| 0 <= k1 < k2 < cells.len() ==> (#[trigger] cells[k1]).col < (#[trigger] cells[k2]).col
        }),
    decreases line.len(),
{
    if line.len() > 0 {
        let rest = line.drop_last();
        lemma_line_cells_shape(rest, col0, row, tab_width, cursor);
        let prev = line_cells(rest, col0, row, tab_width, cursor);
        let cells = line_cells(line, col0, row, tab_width, cursor);
        assert(line_width(line, tab_width) == line_width(rest, tab_width) + advance(line.last(), tab_width));
        if is_drawn(line.last()) {
            let p = placed_at(line.last(), col0 + line_width(rest, tab_width), row, cursor);
            assert(cells == prev.push(p));
            assert(p.col == col0 + line_width(rest, tab_width));
            assert(p.row == row);
            assert forall|k: int| 0 <= k < cells.len() implies {
                &&& (#[trigger] cells[k]).row == row
                &&& col0 <= cells[k].col
                &&& cells[k].col < col0 + line_width(line, tab_width)
                &&& is_drawn(cells[k].ch)
                &&& cells[k].at_cursor == (cells[k].col == cursor.0 && cells[k].row == cursor.1)
            } by {
                if k < prev.len() {
                    assert(cells[k] == prev[k]);
                }
            }
            assert forall|k1: int, k2: int| 0 <= k1 < k2 < cells.len() implies (#[trigger] cells[k1]).col < (#[trigger] cells[k2]).col by {
                assert(cells[k1] == prev[k1]);
                if k2 < prev.len() {
                    assert(cells[k2] == prev[k2]);
                }
            }
        } else {
            assert(cells == prev);
        }
    }
}

/// The cells of a pane are in reading order: by row, then by column. So
/// no two characters share a cell, and at most one cell is marked as the
/// cursor's. Every cell holds a drawn character and is marked exactly when
/// the cursor is on it.
pub proof fn lemma_cells_in_reading_order(lines: Seq<Vec<char>>, first_col: nat, tab_width: u8, cursor: (u32, u32))
    requires
        lines.len() <= u32::MAX,
        columns_fit(lines, first_col, tab_width),
    ensures
        ({
            let cells = pane_cells(lines, first_col, tab_width, cursor);
            &&& forall|k: int| 0 <= k < cells.len() ==> {
                &&& (#[trigger] cells[k]).row < lines.len()
                &&& is_drawn(cells[k].ch)
                &&& cells[k].at_cursor == (cells[k].col == cursor.0 && cells[k].row == cursor.1)
            }
            &&& forall|k1: int, k2: int| 0 <= k1 < k2 < cells.len() ==> before(#[trigger] cells[k1], #[trigger] cells[k2])
            &&& forall|k1: int, k2: int| 0 <= k1 < k2 < cells.len() ==> !((#[trigger] cells[k1]).at_cursor && (#[trigger] cells[k2]).at_cursor)
        }),
    decreases lines.len(),
{
    if lines.len() > 0 {
        let rest = lines.drop_last();
        let n = lines.len() - 1;
        assert(columns_fit(rest, first_col, tab_width)) by {
            assert forall|i: int| 0 <= i < rest.len() implies start_col(i, first_col) + line_width((#[trigger] rest[i])@, tab_width) <= u32::MAX by {
                assert(rest[i] == lines[i]);
            }
        }
        lemma_cells_in_reading_order(rest, first_col, tab_width, cursor);
        assert(lines[n] == lines.last());
        lemma_line_cells_shape(lines.last()@, start_col(n, first_col), n as nat, tab_width, cursor);
        let a = pane_cells(rest, first_col, tab_width, cursor);
        let b = line_cells(lines.last()@, start_col(n, first_col), n as nat, tab_width, cursor);
        let cells = pane_cells(lines, first_col, tab_width, cursor);
        assert(cells == a + b);
        assert forall|k: int| 0 <= k < cells.len() implies {
            &&& (#[trigger] cells[k]).row < lines.len()
            &&& is_drawn(cells[k].ch)
            &&& cells[k].at_cursor == (cells[k].col == cursor.0 && cells[k].row == cursor.1)
        } by {
            if k < a.len() {
                assert(cells[k] == a[k]);
            } else {
                assert(cells[k] == b[k - a.len()]);
            }
        }
        assert forall|k1: int, k2: int| 0 <= k1 < k2 < cells.len() implies before(#[trigger] cells[k1], #[trigger] cells[k2]) by {
            if k2 < a.len() {
                assert(cells[k1] == a[k1]);
                assert(cells[k2] == a[k2]);
            } else if k1 < a.len() {
                assert(cells[k1] == a[k1]);
                assert(cells[k2] == b[k2 - a.len()]);
            } else {
                assert(cells[k1] == b[k1 - a.len()]);
                assert(cells[k2] == b[k2 - a.len()]);
            }
        }
        assert forall|k1: int, k2: int| 0 <= k1 < k2 < cells.len() implies !((#[trigger] cells[k1]).at_cursor && (#[trigger] cells[k2]).at_cursor) by {
            assert(before(cells[k1], cells[k2]));
        }
    }
}

/// Lays out the visible `lines` of a pane: line `i` goes in row `i`, the
/// first line from column `start_line` on (as a `u32`), the others from
/// column 0. Spaces and line breaks take no glyph, a space and a drawn
/// character move one column, a tab `tab_width` columns. A cell is marked
/// when the cursor is on it.
pub fn layout_cells(lines: &Vec<Vec<char>>, start_line: usize, tab_width: u8, cursor: &Cursor) -> (cells: Vec<PlacedChar>)
    requires
        lines.len() <= u32::MAX,
        columns_fit(lines@, start_line as u32 as nat, tab_width),
    ensures
        cells@ == pane_cells(lines@, start_line as u32 as nat, tab_width, cursor.cell()),
{
    let ghost first_col: nat = start_line as u32 as nat;
    let ghost cur = cursor.cell();
    let cx = cursor.pos().x;
    let cy = cursor.pos().y;
    let mut cells: Vec<PlacedChar> = Vec::new();
    let mut col: u32 = start_line as u32;
    let mut row: u32 = 0;
    let mut i: usize = 0;
    while i < lines.len()
        invariant
            i <= lines.len(),
            lines.len() <= u32::MAX,
            columns_fit(lines@, first_col, tab_width),
            row == i,
            col == start_col(i as int, first_col),
            cur == (cx, cy),
            cells@ == pane_cells(lines@.take(i as int), first_col, tab_width, cur),
        decreases lines.len() - i,
    {
        let line = &lines[i];
        let ghost line_s = line@;
        let ghost col0 = col as nat;
        let ghost prefix = cells@;
        assert(col0 + line_width(line_s, tab_width) <= u32::MAX) by {
            assert(lines@[i as int] == *line);
        }
        let mut j: usize = 0;
        while j < line.len()
            invariant
                j <= line.len(),
                line_s == line@,
                col0 + line_width(line_s, tab_width) <= u32::MAX,
                col == col0 + line_width(line_s.take(j as int), tab_width),
                row == i,
                row <= u32::MAX,
                cur == (cx, cy),
                cells@ == prefix + line_cells(line_s.take(j as int), col0, row as nat, tab_width, cur),
            decreases line.len() - j,
        {
            let c = line[j];
            proof {
                lemma_line_width_prefix(line_s, j as int, tab_width);
                lemma_line_width_monotone(line_s, j as int + 1, tab_width);
                assert(line_s.take(j as int + 1).drop_last() =~= line_s.take(j as int));
                assert(line_s.take(j as int + 1).last() == c);
            }
            if c == '\n' {
            } else if c == ' ' {
                col = col + 1;
            } else if c == '\t' {
                col = col + tab_width as u32;
            } else {
                let at_cursor = col == cx && row == cy;
                let placed = PlacedChar { ch: c, col, row, at_cursor };
                proof {
                    let t1 = line_s.take(j as int + 1);
                    assert(t1.drop_last() =~= line_s.take(j as int));
                    assert(placed == placed_at(c, col0 + line_width(t1.drop_last(), tab_width), row as nat, cur));
                }
                cells.push(placed);
                col = col + 1;
                proof {
                    assert(cells@ =~= prefix + line_cells(line_s.take(j as int + 1), col0, row as nat, tab_width, cur));
                }
            }
            j = j + 1;
        }
        proof {
            assert(line_s.take(j as int) =~= line_s);
            assert(lines@.take(i as int + 1).drop_last() =~= lines@.take(i as int));
            assert(lines@.take(i as int + 1).last() == *line);
        }
        col = 0;
        row = row + 1;
        i = i + 1;
    }
    proof {
        assert(lines@.take(i as int) =~= lines@);
    }
    cells
}


// ---------------------------------------------------------------------
// What typing and laying out do, over all inputs
// ---------------------------------------------------------------------

/// In insert mode every typed character is inserted and the mode stays;
/// in normal mode nothing is inserted and only ':' changes the mode, to
/// command input; in command input and visual mode a typed character
/// changes nothing.
pub proof fn lemma_typed_character(ch: char)
    ensures
        process_character_input_spec(EditorMode::Insert, ch) == (EditorMode::Insert, Some(ch)),
        process_character_input_spec(EditorMode::Normal, ch).1 is None,
        (process_character_input_spec(EditorMode::Normal, ch).0 == EditorMode::CommandInput) == (ch == ':'),
        (process_character_input_spec(EditorMode::Normal, ch).0 == EditorMode::Normal) == (ch != ':'),
        process_character_input_spec(EditorMode::CommandInput, ch) == (EditorMode::CommandInput, None::<char>),
        process_character_input_spec(EditorMode::Visual, ch) == (EditorMode::Visual, None::<char>),
{
}

/// Typing a run of characters in insert mode inserts exactly those
/// characters, in the order typed, and leaves the editor in insert mode.
pub proof fn lemma_insert_mode_inserts_what_is_typed(events: Seq<EditorEvent>)
    requires
        forall|i: int| 0 <= i < events.len() ==> (#[trigger] events[i]) is ReceivedCharacter,
    ensures
        mode_after(EditorMode::Insert, events) == EditorMode::Insert,
        inserts_after(EditorMode::Insert, events) == events.map_values(|e: EditorEvent| e->ReceivedCharacter_0),
    decreases events.len(),
{
    if events.len() > 0 {
        let rest = events.drop_last();
        assert forall|i: int| 0 <= i < rest.len() implies (#[trigger] rest[i]) is ReceivedCharacter by {
            assert(rest[i] == events[i]);
        }
        lemma_insert_mode_inserts_what_is_typed(rest);
        assert(events.last() == events[events.len() - 1]);
        assert(events.map_values(|e: EditorEvent| e->ReceivedCharacter_0) =~= rest.map_values(
            |e: EditorEvent| e->ReceivedCharacter_0,
        ).push(events.last()->ReceivedCharacter_0));
    }
}

/// The cells of a line hold, in order, exactly its characters other than
/// line breaks, spaces and tabs, one cell each, all in the line's row.
pub proof fn lemma_line_cells_hold_its_characters(line: Seq<char>, col0: nat, row: nat, tab_width: u8, cursor: (u32, u32))
    ensures
        line_cells(line, col0, row, tab_width, cursor).map_values(|p: PlacedChar| p.ch)
            == line.filter(|c: char| c != '\n' && c != ' ' && c != '\t'),
    decreases line.len(),
{
    reveal(Seq::filter);
    if line.len() > 0 {
        let rest = line.drop_last();
        lemma_line_cells_hold_its_characters(rest, col0, row, tab_width, cursor);
        let prev = line_cells(rest, col0, row, tab_width, cursor);
        let cells = line_cells(line, col0, row, tab_width, cursor);
        let f = |c: char| c != '\n' && c != ' ' && c != '\t';
        assert(line.filter(f) == if f(line.last()) { rest.filter(f).push(line.last()) } else { rest.filter(f) });
        if is_drawn(line.last()) {
            assert(cells == prev.push(placed_at(line.last(), col0 + line_width(rest, tab_width), row, cursor)));
            assert(cells.map_values(|p: PlacedChar| p.ch) =~= prev.map_values(|p: PlacedChar| p.ch).push(line.last()));
        } else {
            assert(cells == prev);
        }
    }
}

/// The cells of a pane hold, in order, the characters of its lines other
/// than line breaks, spaces and tabs, line after line: one cell for each.
pub proof fn lemma_pane_cells_hold_the_characters(lines: Seq<Vec<char>>, first_col: nat, tab_width: u8, cursor: (u32, u32))
    ensures
        pane_cells(lines, first_col, tab_width, cursor).map_values(|p: PlacedChar| p.ch)
            == lines.map_values(|l: Vec<char>| l@.filter(|c: char| c != '\n' && c != ' ' && c != '\t')).flatten(),
    decreases lines.len(),
{
    let f = |l: Vec<char>| l@.filter(|c: char| c != '\n' && c != ' ' && c != '\t');
    if lines.len() == 0 {
        assert(lines.map_values(f) =~= Seq::<Seq<char>>::empty());
        assert(pane_cells(lines, first_col, tab_width, cursor).map_values(|p: PlacedChar| p.ch) =~= Seq::<char>::empty());
    } else {
        let rest = lines.drop_last();
        let n = lines.len() - 1;
        lemma_pane_cells_hold_the_characters(rest, first_col, tab_width, cursor);
        lemma_line_cells_hold_its_characters(lines.last()@, start_col(n, first_col), n as nat, tab_width, cursor);
        let a = pane_cells(rest, first_col, tab_width, cursor);
        let b = line_cells(lines.last()@, start_col(n, first_col), n as nat, tab_width, cursor);
        assert(pane_cells(lines, first_col, tab_width, cursor) == a + b);
        assert((a + b).map_values(|p: PlacedChar| p.ch) =~= a.map_values(|p: PlacedChar| p.ch) + b.map_values(
            |p: PlacedChar| p.ch,
        ));
        assert(lines.map_values(f) =~= rest.map_values(f).push(f(lines.last())));
        rest.map_values(f).lemma_flatten_push(f(lines.last()));
    }
}


/// The columns a line takes: one for each character that is neither a line
/// break nor a tab, `tab_width` for each tab.
proof fn lemma_line_width_counts(line: Seq<char>, tab_width: u8)
    ensures
        line_width(line, tab_width) == line.filter(|c: char| c != '\n' && c != '\t').len()
            + tab_width * line.filter(|c: char| c == '\t').len(),
    decreases line.len(),
{
    reveal(Seq::filter);
    if line.len() > 0 {
        let rest = line.drop_last();
        lemma_line_width_counts(rest, tab_width);
        let other = |c: char| c != '\n' && c != '\t';
        let tab = |c: char| c == '\t';
        let t0 = rest.filter(tab).len();
        assert(line.filter(other) == if other(line.last()) { rest.filter(other).push(line.last()) } else { rest.filter(other) });
        assert(line.filter(tab) == if tab(line.last()) { rest.filter(tab).push(line.last()) } else { rest.filter(tab) });
        assert(tab_width * (t0 + 1) == tab_width * t0 + tab_width) by (nonlinear_arith);
        assert(line_width(line, tab_width) == line_width(rest, tab_width) + advance(line.last(), tab_width));
        assert(line_width(rest, tab_width) == rest.filter(other).len() + tab_width * t0);
    } else {
        assert(line.filter(|c: char| c == '\t').len() == 0);
        assert(tab_width * 0nat == 0) by (nonlinear_arith);
    }
}

/// The cell of each drawn character of a line: the character at index `j`
/// that is not a line break, space or tab gets the cell after those of the
/// drawn characters before it, holding that very character, in the line's
/// row, at the column reached after the characters before it (a tab takes
/// `tab_width` columns, a line break none, any other character one), and
/// marked exactly when the cursor is on that cell.
pub proof fn lemma_cell_of_character(line: Seq<char>, col0: nat, row: nat, tab_width: u8, cursor: (u32, u32), j: int)
    requires
        0 <= j < line.len(),
        line[j] != '\n' && line[j] != ' ' && line[j] != '\t',
        col0 + line_width(line, tab_width) <= u32::MAX,
        row <= u32::MAX,
    ensures
        ({
            let before = line.take(j);
            let k = before.filter(|c: char| c != '\n' && c != ' ' && c != '\t').len();
            let col = col0 + before.filter(|c: char| c != '\n' && c != '\t').len() + tab_width * before.filter(
                |c: char| c == '\t',
            ).len();
            let cells = line_cells(line, col0, row, tab_width, cursor);
            &&& k < cells.len()
            &&& cells[k as int] == PlacedChar {
                ch: line[j],
                col: col as u32,
                row: row as u32,
                at_cursor: col == cursor.0 && row == cursor.1,
            }
        }),
    decreases line.len(),
{
    let rest = line.drop_last();
    let prev = line_cells(rest, col0, row, tab_width, cursor);
    let cells = line_cells(line, col0, row, tab_width, cursor);
    lemma_line_cells_hold_its_characters(rest, col0, row, tab_width, cursor);
    lemma_line_width_monotone(line, line.len() - 1, tab_width);
    assert(line.take(line.len() - 1) =~= rest);
    if j == line.len() - 1 {
        assert(line.take(j) =~= rest);
        assert(is_drawn(line.last()));
        assert(cells == prev.push(placed_at(line.last(), col0 + line_width(rest, tab_width), row, cursor)));
        lemma_line_width_counts(rest, tab_width);
        assert(prev.len() == prev.map_values(|p: PlacedChar| p.ch).len());
    } else {
        assert(line.take(j) =~= rest.take(j));
        assert(rest[j] == line[j]);
        lemma_cell_of_character(rest, col0, row, tab_width, cursor, j);
        if is_drawn(line.last()) {
            assert(cells == prev.push(placed_at(line.last(), col0 + line_width(rest, tab_width), row, cursor)));
        } else {
            assert(cells == prev);
        }
    }
}

} // verus!
