use std::sync::atomic::AtomicU32;

use rem::editor::{insert_advance, layout_cells, process_character_input, process_event, process_input, EditorEvent, EditorMode, PlacedChar};
use rem::pane::{Cursor, CursorMode, PaneID, Position};

fn cursor_at(x: u32, y: u32) -> Cursor {
    let counter = AtomicU32::new(0);
    Cursor::new(PaneID::next(&counter), CursorMode::Box).at(Position::new(x, y))
}

fn lines(text: &[&str]) -> Vec<Vec<char>> {
    text.iter().map(|l| l.chars().collect()).collect()
}

fn cell(ch: char, col: u32, row: u32, at_cursor: bool) -> PlacedChar {
    PlacedChar { ch, col, row, at_cursor }
}

#[test]
fn character_input_per_mode() {
    assert_eq!(process_character_input(EditorMode::Normal, ':'), (EditorMode::CommandInput, None));
    assert_eq!(process_character_input(EditorMode::Normal, 'x'), (EditorMode::Normal, None));
    assert_eq!(process_character_input(EditorMode::CommandInput, 'w'), (EditorMode::CommandInput, None));
    assert_eq!(process_character_input(EditorMode::Insert, 'a'), (EditorMode::Insert, Some('a')));
    assert_eq!(process_character_input(EditorMode::Visual, 'a'), (EditorMode::Visual, None));
}

#[test]
fn events_and_running() {
    assert_eq!(process_event(EditorMode::Insert, EditorEvent::Device), (true, EditorMode::Insert, None));
    assert_eq!(process_event(EditorMode::Insert, EditorEvent::KeyboardInput), (true, EditorMode::Insert, None));
    assert_eq!(process_event(EditorMode::Insert, EditorEvent::CloseRequested), (false, EditorMode::Insert, None));
    assert_eq!(process_event(EditorMode::Normal, EditorEvent::Destroyed), (false, EditorMode::Normal, None));
    assert_eq!(process_event(EditorMode::Normal, EditorEvent::OtherWindowEvent), (true, EditorMode::Normal, None));
    assert_eq!(process_event(EditorMode::Normal, EditorEvent::Other), (true, EditorMode::Normal, None));
    assert_eq!(
        process_event(EditorMode::Insert, EditorEvent::ReceivedCharacter('q')),
        (true, EditorMode::Insert, Some('q'))
    );
}

#[test]
fn input_round_uses_the_last_event() {
    let (running, mode, inserts) = process_input(EditorMode::Insert, &vec![]);
    assert!(running);
    assert_eq!(mode, EditorMode::Insert);
    assert!(inserts.is_empty());

    let events = vec![EditorEvent::CloseRequested, EditorEvent::ReceivedCharacter('a')];
    let (running, _, inserts) = process_input(EditorMode::Insert, &events);
    assert!(running);
    assert_eq!(inserts, vec!['a']);

    let events = vec![
        EditorEvent::ReceivedCharacter('x'),
        EditorEvent::ReceivedCharacter(':'),
        EditorEvent::ReceivedCharacter('w'),
        EditorEvent::Destroyed,
    ];
    let (running, mode, inserts) = process_input(EditorMode::Normal, &events);
    assert!(!running);
    assert_eq!(mode, EditorMode::CommandInput);
    assert!(inserts.is_empty());

    let events = vec![EditorEvent::ReceivedCharacter('h'), EditorEvent::KeyboardInput, EditorEvent::ReceivedCharacter('i')];
    let (_, _, inserts) = process_input(EditorMode::Insert, &events);
    assert_eq!(inserts, vec!['h', 'i']);
}

#[test]
fn cursor_advance_on_insert() {
    assert_eq!(insert_advance('a', 4), 1);
    assert_eq!(insert_advance('\t', 4), 4);
    assert_eq!(insert_advance('\t', 0), 0);
}

#[test]
fn layout_skips_blanks_and_expands_tabs() {
    let text = lines(&["ab c", "\tx\n", "", "  y"]);
    let cells = layout_cells(&text, 0, 2, &cursor_at(3, 0));
    assert_eq!(
        cells,
        vec![
            cell('a', 0, 0, false),
            cell('b', 1, 0, false),
            cell('c', 3, 0, true),
            cell('x', 2, 1, false),
            cell('y', 2, 3, false),
        ]
    );
}

#[test]
fn layout_first_line_starts_at_start_line() {
    let text = lines(&["ab", "cd"]);
    let cells = layout_cells(&text, 3, 4, &cursor_at(0, 1));
    assert_eq!(cells, vec![cell('a', 3, 0, false), cell('b', 4, 0, false), cell('c', 0, 1, true), cell('d', 1, 1, false)]);
}

#[test]
fn layout_cells_are_in_reading_order() {
    let text = lines(&["\t\tfn main() {", "    let x = 1;", "}"]);
    let cells = layout_cells(&text, 0, 4, &cursor_at(8, 0));
    for w in cells.windows(2) {
        assert!(w[0].row < w[1].row || (w[0].row == w[1].row && w[0].col < w[1].col));
    }
    assert_eq!(cells.iter().filter(|c| c.at_cursor).count(), 1);
    assert_eq!(cells[0], cell('f', 8, 0, true));
}
