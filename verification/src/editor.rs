//! The editor: one line buffer and one cursor, driven by actions.

use crate::consts::{canonical, is_punctuation, Style, Table, TableView};
use crate::cursor::{
    deleted_backward, deleted_forward, left_of, right_of, split_at, typed_position, Cursor,
    EditError, Position,
};
use crate::line::{Line, LineView};
use crate::lines::{in_bounds, is_buffer, lines_text, typed_at, Lines};
use crate::tok::{parse, Token, Tokens};
use vstd::prelude::*;

verus! {

/// What the user can ask of the editor.
#[derive(Copy, Clone, Debug, PartialEq, Eq, Structural)]
pub enum Action {
    MoveRight,
    MoveLeft,
    DeleteForward,
    DeleteBackward,
    Split,
    InsertCharacter(char),
}

/// What became of an action.
#[derive(Copy, Clone, Debug, PartialEq, Eq, Structural)]
pub enum Outcome {
    /// It was carried out.
    Done,
    /// It was refused, and nothing changed.
    Refused(EditError),
    /// The character is none that can be typed into a line: nothing changed,
    /// and the host may treat the key as it sees fit.
    Unhandled,
}

/// What an editor holds.
pub struct EditorView {
    pub lines: Seq<LineView>,
    pub cursor: Position,
    pub table: TableView,
}

/// Whether `c` is a letter, as `char::is_alphabetic` finds it.
pub uninterp spec fn alphabetic(c: char) -> bool;

/// Whether `c` is a letter.
///
/// Calls `char::is_alphabetic`, which looks the character up in the Unicode
/// tables that the standard library was built with; the contract only gives
/// its answer a name.
#[verifier::external_body]
fn is_alphabetic(c: char) -> (b: bool)
    ensures
        b == alphabetic(c),
{
    c.is_alphabetic()
}

/// Whether `c` can be typed into a line, where `letter` says whether it is a
/// letter: letters can, and the punctuation of the spelling table `t`.
pub open spec fn can_type(t: TableView, c: char, letter: bool) -> bool {
    letter || is_punctuation(t, c)
}

/// Computes [`can_type`].
pub fn may_type(table: &Table, c: char, letter: bool) -> (b: bool)
    ensures
        b == can_type(table@, c, letter),
{
    letter || table.punctuation(c)
}

/// The editor after a move or an edit that leads to `next`, or the editor as
/// it was where that was refused.
pub open spec fn settled(
    state: EditorView,
    next: Result<(Seq<LineView>, Position), EditError>,
) -> (EditorView, Outcome) {
    match next {
        Ok((lines, cursor)) => (EditorView { lines, cursor, ..state }, Outcome::Done),
        Err(e) => (state, Outcome::Refused(e)),
    }
}

/// The editor after a move of the cursor that leads to `next`, or the editor
/// as it was where the move was refused.
pub open spec fn moved(state: EditorView, next: Result<Position, EditError>) -> (
    EditorView,
    Outcome,
) {
    match next {
        Ok(cursor) => (EditorView { cursor, ..state }, Outcome::Done),
        Err(e) => (state, Outcome::Refused(e)),
    }
}

/// The editor after `action`, and what became of the action.
pub open spec fn acted(state: EditorView, action: Action) -> (EditorView, Outcome) {
    match action {
        Action::MoveRight => moved(state, right_of(state.lines, state.cursor)),
        Action::MoveLeft => moved(state, left_of(state.lines, state.cursor)),
        Action::DeleteForward => settled(state, deleted_forward(state.lines, state.cursor)),
        Action::DeleteBackward => settled(state, deleted_backward(state.lines, state.cursor)),
        Action::Split => settled(state, split_at(state.lines, state.cursor)),
        Action::InsertCharacter(c) => if can_type(state.table, c, alphabetic(c)) {
            let lines = typed_at(state.table, state.lines, state.cursor, Token::Char(c));
            (
                EditorView {
                    lines,
                    cursor: typed_position(state.lines, lines, state.cursor),
                    ..state
                },
                Outcome::Done,
            )
        } else {
            (state, Outcome::Unhandled)
        },
    }
}

/// The lines that a new editor starts with, as they are read under the table
/// `t`: a premise and a line derived from it.
pub open spec fn example(t: TableView) -> Seq<LineView> {
    seq![
        LineView {
            no: 0,
            step: parse(t, "P"@),
            method: parse(t, "Premise"@),
            deps: seq![0usize],
        },
        LineView { no: 1, step: parse(t, "¬¬P"@), method: parse(t, "¬I 1"@), deps: seq![0usize] },
    ]
}

/// A line buffer and a cursor in it.
pub struct Editor {
    lines: Lines,
    cursor: Cursor,
}

impl View for Editor {
    type V = EditorView;

    closed spec fn view(&self) -> EditorView {
        EditorView { lines: self.lines@, cursor: self.cursor@, table: self.lines.notation() }
    }
}

impl EditorView {
    /// The lines are a buffer as it should be, and the cursor lies in it.
    pub open spec fn well_formed(self) -> bool {
        is_buffer(self.lines) && in_bounds(self.lines, self.cursor)
    }
}

impl Editor {
    /// An editor that goes by `table` and holds the example lines, with the
    /// cursor at their start.
    pub fn with_table(table: Table) -> (r: Editor)
        ensures
            r@ == (EditorView {
                lines: example(table@),
                cursor: Position::origin(),
                table: table@,
            }),
            r@.well_formed(),
    {
        let mut first_deps: Vec<usize> = Vec::new();
        first_deps.push(0);
        let mut second_deps: Vec<usize> = Vec::new();
        second_deps.push(0);
        let mut v: Vec<Line> = Vec::new();
        v.push(
            Line::full(
                0,
                Tokens::from_str_with("P", &table),
                Tokens::from_str_with("Premise", &table),
                first_deps,
            ),
        );
        v.push(
            Line::full(
                1,
                Tokens::from_str_with("¬¬P", &table),
                Tokens::from_str_with("¬I 1", &table),
                second_deps,
            ),
        );
        let lines = Lines::with_table(v, table);
        assert(lines@ =~= example(table@));
        Editor { lines, cursor: Cursor::new() }
    }

    /// An editor that goes by the canonical table and holds the example
    /// lines, with the cursor at their start.
    pub fn new() -> (r: Editor)
        ensures
            r@ == (EditorView {
                lines: example(canonical()),
                cursor: Position::origin(),
                table: canonical(),
            }),
            r@.well_formed(),
    {
        Editor::with_table(Table::canonical())
    }

    /// The lines.
    pub fn lines(&self) -> (r: &Lines)
        ensures
            r@ == self@.lines,
    {
        &self.lines
    }

    /// The cursor.
    pub fn cursor(&self) -> (r: &Cursor)
        ensures
            r@ == self@.cursor,
    {
        &self.cursor
    }

    /// Whether the lines are a buffer as it should be and the cursor lies in
    /// it, as they are and stay from `new` on.
    pub fn is_well_formed(&self) -> (b: bool)
        ensures
            b == self@.well_formed(),
    {
        self.lines.is_buffer() && self.cursor.lies_in(&self.lines)
    }

    /// The spelling table that the editor goes by.
    pub fn table(&self) -> (r: &Table)
        ensures
            r@ == self@.table,
    {
        self.lines.table()
    }

    /// Carries out `action` on the cursor and the lines. A character that
    /// cannot be typed into a line is left to the host.
    pub fn handle_input(&mut self, action: Action) -> (r: Outcome)
        requires
            old(self)@.well_formed(),
        ensures
            (final(self)@, r) == acted(old(self)@, action),
            final(self)@.well_formed(),
    {
        let result = match action {
            Action::MoveRight => self.cursor.right(&self.lines),
            Action::MoveLeft => self.cursor.left(&self.lines),
            Action::DeleteForward => self.cursor.delete(&mut self.lines),
            Action::DeleteBackward => self.cursor.backspace(&mut self.lines),
            Action::Split => self.cursor.newline(&mut self.lines),
            Action::InsertCharacter(c) => {
                if !may_type(self.lines.table(), c, is_alphabetic(c)) {
                    return Outcome::Unhandled;
                }
                self.cursor.insert(&mut self.lines, Token::Char(c))
            },
        };
        match result {
            Ok(()) => Outcome::Done,
            Err(e) => Outcome::Refused(e),
        }
    }

    /// The lines as text in `style`, each followed by a line feed, with the
    /// marker where the cursor stands.
    pub fn format(&self, style: Style) -> (r: String)
        ensures
            r@ == lines_text(self@.table, self@.lines, Some(self@.cursor), style),
    {
        self.lines.fmt_cursor(style, &self.cursor)
    }
}

} // verus!
