//! The cursor: a position in a line buffer, and the moves and edits made at
//! it.

use crate::line::{Line, LineView};
use crate::lines::{
    column_at, in_bounds, is_buffer, typed_at, with_column_at, with_line, without_line, Lines,
};
use crate::consts::is_compact;
use crate::tok::{is_normal, lemma_insert_removes_few, lemma_normalize_len, Token};
use vstd::prelude::*;

verus! {

/// One of the two token sequences of a line.
#[derive(Copy, Clone, Debug, PartialEq, Eq, Structural)]
pub enum Col {
    Step,
    Method,
}

/// A position: a line, a column of that line, and an offset between the
/// tokens of that column.
#[derive(Debug, PartialEq, Eq)]
pub struct Cursor {
    /// Line number
    no: usize,
    /// Column
    col: Col,
    /// Index of the token that the cursor stands before
    i: usize,
}

/// What a cursor says: on which line it stands, in which column, and before
/// which token.
pub struct Position {
    pub line: nat,
    pub col: Col,
    pub offset: nat,
}

/// Why a move or an edit was refused.
#[derive(Copy, Clone, Debug, PartialEq, Eq, Structural)]
pub enum EditError {
    /// The cursor stands at the start of the first line's step.
    StartOfText,
    /// The cursor stands at the end of the last line's method.
    EndOfText,
    /// A line can be split off only at the end of a column.
    NotAtBoundary,
    /// No token stands where one was to be deleted.
    NothingToDelete,
    /// The only line of a buffer cannot be deleted.
    SingleLineGuard,
}

impl Position {
    /// The start of the first line's step.
    pub open spec fn origin() -> Position {
        Position { line: 0, col: Col::Step, offset: 0 }
    }

    /// The position at `offset` in the same column of the same line.
    pub open spec fn with_offset(self, offset: nat) -> Position {
        Position { offset, ..self }
    }

    /// The position at the start of the same column, on the line before this
    /// one, or on the first line where there is none before.
    pub open spec fn line_up(self) -> Position {
        Position {
            line: if self.line == 0 {
                0
            } else {
                (self.line - 1) as nat
            },
            offset: 0,
            ..self
        }
    }
}

/// `p` stands at the end of its column.
pub open spec fn at_end(s: Seq<LineView>, p: Position) -> bool {
    p.offset == column_at(s, p).len()
}

/// Where a move to the right from `p` leads: one token on; from the end of a
/// step to the start of the method of the same line; from the end of a method
/// to the start of the next line's step. From the end of the last line's
/// method there is no move.
pub open spec fn right_of(s: Seq<LineView>, p: Position) -> Result<Position, EditError> {
    if p.offset < column_at(s, p).len() {
        Ok(p.with_offset(p.offset + 1))
    } else if p.col == Col::Step {
        Ok(Position { line: p.line, col: Col::Method, offset: 0 })
    } else if p.line + 1 < s.len() {
        Ok(Position { line: p.line + 1, col: Col::Step, offset: 0 })
    } else {
        Err(EditError::EndOfText)
    }
}

/// Where a move to the left from `p` leads: one token back; from the start of
/// a method to the end of the step of the same line; from the start of a step
/// to the end of the method of the line before. From the start of the first
/// line's step there is no move.
pub open spec fn left_of(s: Seq<LineView>, p: Position) -> Result<Position, EditError> {
    if p.offset > 0 {
        Ok(p.with_offset((p.offset - 1) as nat))
    } else if p.col == Col::Method {
        Ok(Position { line: p.line, col: Col::Step, offset: s[p.line as int].step.len() })
    } else if p.line > 0 {
        Ok(
            Position {
                line: (p.line - 1) as nat,
                col: Col::Method,
                offset: s[p.line - 1].method.len(),
            },
        )
    } else {
        Err(EditError::StartOfText)
    }
}

/// The buffer and the position after a new line was split off at `p`: at the
/// end of a column an empty line is put in after the line of `p`, and the
/// cursor goes to the start of its step. Elsewhere nothing is split off.
pub open spec fn split_at(s: Seq<LineView>, p: Position) -> Result<
    (Seq<LineView>, Position),
    EditError,
> {
    if at_end(s, p) {
        Ok(
            (
                with_line(s, LineView::blank(p.line + 1)),
                Position { line: p.line + 1, col: Col::Step, offset: 0 },
            ),
        )
    } else {
        Err(EditError::NotAtBoundary)
    }
}

/// The buffer and the position after the line of `p` was deleted, which the
/// only line of a buffer cannot be.
pub open spec fn line_deleted(s: Seq<LineView>, p: Position) -> Result<
    (Seq<LineView>, Position),
    EditError,
> {
    if s.len() <= 1 {
        Err(EditError::SingleLineGuard)
    } else {
        Ok((without_line(s, p.line), p.line_up()))
    }
}

/// The buffer with the token at `offset` taken out of the column of `p`.
pub open spec fn token_deleted(s: Seq<LineView>, p: Position, offset: nat) -> Seq<LineView> {
    with_column_at(s, p, column_at(s, p).remove(offset as int))
}

/// The buffer and the position after a deletion forwards at `p`: in the
/// method of an empty line the line goes; elsewhere the token that the cursor
/// stands before goes, if there is one, and the cursor stays.
pub open spec fn deleted_forward(s: Seq<LineView>, p: Position) -> Result<
    (Seq<LineView>, Position),
    EditError,
> {
    if s[p.line as int].is_empty() && p.col == Col::Method {
        line_deleted(s, p)
    } else if at_end(s, p) {
        Err(EditError::NothingToDelete)
    } else {
        Ok((token_deleted(s, p, p.offset), p))
    }
}

/// The buffer and the position after a deletion backwards at `p`: in an
/// empty method the cursor only moves left; in the step of an empty line the
/// line goes; elsewhere the token that the cursor stands behind goes, if there
/// is one, and the cursor moves back by one.
pub open spec fn deleted_backward(s: Seq<LineView>, p: Position) -> Result<
    (Seq<LineView>, Position),
    EditError,
> {
    if p.col == Col::Method && s[p.line as int].method.len() == 0 {
        match left_of(s, p) {
            Ok(q) => Ok((s, q)),
            Err(e) => Err(e),
        }
    } else if s[p.line as int].is_empty() && p.col == Col::Step {
        line_deleted(s, p)
    } else if p.offset == 0 {
        Err(EditError::NothingToDelete)
    } else {
        Ok((token_deleted(s, p, (p.offset - 1) as nat), p.with_offset((p.offset - 1) as nat)))
    }
}

/// The position after `tok` was typed at `p`, where `after` is the buffer
/// with the token in it: one token on, and back by as many tokens as
/// normalizing took out of the column, but not back behind its start, which
/// is not reached in a column that was in normal form under a compact table.
pub open spec fn typed_position(s: Seq<LineView>, after: Seq<LineView>, p: Position) -> Position {
    let removed = column_at(s, p).len() + 1 - column_at(after, p).len();
    p.with_offset(
        if p.offset + 1 >= removed {
            (p.offset + 1 - removed) as nat
        } else {
            0
        },
    )
}

/// Moving left undoes a move to the right.
pub proof fn lemma_left_undoes_right(s: Seq<LineView>, p: Position)
    requires
        in_bounds(s, p),
        right_of(s, p) is Ok,
    ensures
        in_bounds(s, right_of(s, p)->Ok_0),
        left_of(s, right_of(s, p)->Ok_0) == Ok::<Position, EditError>(p),
{
}

/// Moving right undoes a move to the left.
pub proof fn lemma_right_undoes_left(s: Seq<LineView>, p: Position)
    requires
        in_bounds(s, p),
        left_of(s, p) is Ok,
    ensures
        in_bounds(s, left_of(s, p)->Ok_0),
        right_of(s, left_of(s, p)->Ok_0) == Ok::<Position, EditError>(p),
{
}

impl View for Cursor {
    type V = Position;

    closed spec fn view(&self) -> Position {
        Position { line: self.no as nat, col: self.col, offset: self.i as nat }
    }
}

impl Cursor {
    /// The cursor at the start of the first line's step.
    pub fn new() -> (c: Cursor)
        ensures
            c@ == (Position { line: 0, col: Col::Step, offset: 0 }),
    {
        Cursor { no: 0, col: Col::Step, i: 0 }
    }

    /// The cursor on line `no`, in column `col`, before the token at index `i`.
    pub fn at(no: usize, col: Col, i: usize) -> (c: Cursor)
        ensures
            c@ == (Position { line: no as nat, col, offset: i as nat }),
    {
        Cursor { no, col, i }
    }

    /// The line that the cursor is on.
    pub fn line(&self) -> (no: usize)
        ensures
            no == self@.line,
    {
        self.no
    }

    /// The column that the cursor is in.
    pub fn column(&self) -> (col: Col)
        ensures
            col == self@.col,
    {
        self.col
    }

    /// The index of the token that the cursor stands before.
    pub fn offset(&self) -> (i: usize)
        ensures
            i == self@.offset,
    {
        self.i
    }

    /// Whether the cursor lies in `lines`: on one of the lines, and not
    /// behind the end of its column.
    pub fn lies_in(&self, lines: &Lines) -> (b: bool)
        ensures
            b == in_bounds(lines@, self@),
    {
        self.no < lines.len() && self.i <= self.column_len(lines)
    }

    /// The number of tokens in the column that the cursor is in.
    fn column_len(&self, lines: &Lines) -> (n: usize)
        requires
            self@.line < lines@.len(),
        ensures
            n == column_at(lines@, self@).len(),
    {
        let l = lines.get(self.no);
        match self.col {
            Col::Step => l.step.len(),
            Col::Method => l.method.len(),
        }
    }

    /// Moves the cursor one place to the right, to the next column at the end
    /// of a column. At the end of the text it is refused, and the cursor stays.
    pub fn right(&mut self, lines: &Lines) -> (r: Result<(), EditError>)
        requires
            in_bounds(lines@, old(self)@),
        ensures
            match right_of(lines@, old(self)@) {
                Ok(p) => r is Ok && final(self)@ == p,
                Err(e) => r == Err::<(), EditError>(e) && *final(self) == *old(self),
            },
            in_bounds(lines@, final(self)@),
            old(self)@.col == Col::Method && at_end(lines@, old(self)@) && old(self)@.line + 1
                == lines@.len() ==> r == Err::<(), EditError>(EditError::EndOfText) && final(self)@
                == old(self)@,
    {
        if self.i < self.column_len(lines) {
            self.i += 1;
            Ok(())
        } else {
            match self.col {
                Col::Step => {
                    self.col = Col::Method;
                    self.i = 0;
                    Ok(())
                },
                Col::Method => {
                    if self.no < lines.len() - 1 {
                        self.no += 1;
                        self.col = Col::Step;
                        self.i = 0;
                        Ok(())
                    } else {
                        Err(EditError::EndOfText)
                    }
                },
            }
        }
    }

    /// Moves the cursor one place to the left, to the column before at the
    /// start of a column. At the start of the text it is refused, and the
    /// cursor stays.
    pub fn left(&mut self, lines: &Lines) -> (r: Result<(), EditError>)
        requires
            in_bounds(lines@, old(self)@),
        ensures
            match left_of(lines@, old(self)@) {
                Ok(p) => r is Ok && final(self)@ == p,
                Err(e) => r == Err::<(), EditError>(e) && *final(self) == *old(self),
            },
            in_bounds(lines@, final(self)@),
    {
        if self.i > 0 {
            self.i -= 1;
            Ok(())
        } else {
            match self.col {
                Col::Method => {
                    self.col = Col::Step;
                    self.i = lines.get(self.no).step.len();
                    Ok(())
                },
                Col::Step => {
                    if self.no > 0 {
                        self.no -= 1;
                        self.col = Col::Method;
                        self.i = lines.get(self.no).method.len();
                        Ok(())
                    } else {
                        Err(EditError::StartOfText)
                    }
                },
            }
        }
    }

    /// True if the cursor stands at the end of its column.
    pub fn is_eot(&self, lines: &Lines) -> (b: bool)
        requires
            self@.line < lines@.len(),
        ensures
            b == at_end(lines@, self@),
    {
        self.i == self.column_len(lines)
    }

    /// Deletes the line that the cursor is on and puts the cursor at the start
    /// of the same column one line up, or on the first line.
    fn delete_line(&mut self, lines: &mut Lines) -> (r: Result<(), EditError>)
        requires
            is_buffer(old(lines)@),
            in_bounds(old(lines)@, old(self)@),
        ensures
            match line_deleted(old(lines)@, old(self)@) {
                Ok((s, p)) => r is Ok && final(lines)@ == s && final(self)@ == p,
                Err(e) => r == Err::<(), EditError>(e) && final(lines)@ == old(lines)@
                    && *final(self) == *old(self),
            },
            final(lines).notation() == old(lines).notation(),
            is_buffer(final(lines)@),
            in_bounds(final(lines)@, final(self)@),
    {
        if lines.len() == 1 {
            return Err(EditError::SingleLineGuard);
        }
        lines.delete_line(self.no);
        if self.no != 0 {
            self.no -= 1;
        }
        self.i = 0;
        proof {
            crate::lines::lemma_without_line_numbered(old(lines)@, old(self)@.line);
        }
        Ok(())
    }

    /// Deletes the token that the cursor stands before; in the method of an
    /// empty line, the line. Where there is nothing to delete, and for the only
    /// line of a buffer, it is refused, and nothing changes.
    pub fn delete(&mut self, lines: &mut Lines) -> (r: Result<(), EditError>)
        requires
            is_buffer(old(lines)@),
            in_bounds(old(lines)@, old(self)@),
        ensures
            match deleted_forward(old(lines)@, old(self)@) {
                Ok((s, p)) => r is Ok && final(lines)@ == s && final(self)@ == p,
                Err(e) => r == Err::<(), EditError>(e) && final(lines)@ == old(lines)@
                    && *final(self) == *old(self),
            },
            final(lines).notation() == old(lines).notation(),
            is_buffer(final(lines)@),
            in_bounds(final(lines)@, final(self)@),
            old(lines)@.len() >= 2 && old(lines)@[old(self)@.line as int].is_empty()
                && old(self)@.col == Col::Method ==> r is Ok && final(lines)@ == without_line(
                old(lines)@,
                old(self)@.line,
            ) && final(lines)@.len() == old(lines)@.len() - 1,
    {
        if lines.get(self.no).is_empty() && self.col == Col::Method {
            self.delete_line(lines)
        } else if self.is_eot(lines) {
            Err(EditError::NothingToDelete)
        } else {
            lines.remove_token(self.no, self.col, self.i);
            Ok(())
        }
    }

    /// Deletes the token that the cursor stands behind and moves the cursor
    /// back by one; in an empty method it only moves the cursor left; in the
    /// step of an empty line it deletes the line. Where there is nothing to
    /// delete, and for the only line of a buffer, it is refused, and nothing
    /// changes.
    pub fn backspace(&mut self, lines: &mut Lines) -> (r: Result<(), EditError>)
        requires
            is_buffer(old(lines)@),
            in_bounds(old(lines)@, old(self)@),
        ensures
            match deleted_backward(old(lines)@, old(self)@) {
                Ok((s, p)) => r is Ok && final(lines)@ == s && final(self)@ == p,
                Err(e) => r == Err::<(), EditError>(e) && final(lines)@ == old(lines)@
                    && *final(self) == *old(self),
            },
            final(lines).notation() == old(lines).notation(),
            is_buffer(final(lines)@),
            in_bounds(final(lines)@, final(self)@),
    {
        if self.col == Col::Method && lines.get(self.no).method.is_empty() {
            self.left(lines)
        } else if lines.get(self.no).is_empty() && self.col == Col::Step {
            self.delete_line(lines)
        } else if self.i == 0 {
            Err(EditError::NothingToDelete)
        } else {
            lines.remove_token(self.no, self.col, self.i - 1);
            self.i -= 1;
            Ok(())
        }
    }

    /// Splits off a new, empty line after the line that the cursor is on, and
    /// puts the cursor at the start of its step. Anywhere but at the end of a
    /// column it is refused, and nothing changes.
    pub fn newline(&mut self, lines: &mut Lines) -> (r: Result<(), EditError>)
        requires
            is_buffer(old(lines)@),
            in_bounds(old(lines)@, old(self)@),
        ensures
            match split_at(old(lines)@, old(self)@) {
                Ok((s, p)) => r is Ok && final(lines)@ == s && final(self)@ == p,
                Err(e) => r == Err::<(), EditError>(e) && final(lines)@ == old(lines)@
                    && *final(self) == *old(self),
            },
            final(lines).notation() == old(lines).notation(),
            is_buffer(final(lines)@),
            in_bounds(final(lines)@, final(self)@),
    {
        if !self.is_eot(lines) {
            return Err(EditError::NotAtBoundary);
        }
        proof {
            lines.lemma_len_fits();
        }
        lines.insert_line(Line::new(self.no + 1));
        self.no += 1;
        self.col = Col::Step;
        self.i = 0;
        proof {
            crate::lines::lemma_with_line_numbered(
                old(lines)@,
                LineView::blank(old(self)@.line + 1),
            );
        }
        Ok(())
    }

    /// Puts `tok` where the cursor stands, brings that column into normal
    /// form, and moves the cursor behind the token: one place on, and back by
    /// as many tokens as normalizing took out.
    pub fn insert(&mut self, lines: &mut Lines, tok: Token) -> (r: Result<(), EditError>)
        requires
            in_bounds(old(lines)@, old(self)@),
        ensures
            r is Ok,
            final(lines)@ == typed_at(old(lines).notation(), old(lines)@, old(self)@, tok),
            final(lines).notation() == old(lines).notation(),
            final(self)@ == typed_position(old(lines)@, final(lines)@, old(self)@),
            is_buffer(old(lines)@) ==> is_buffer(final(lines)@),
            in_bounds(final(lines)@, final(self)@),
            is_compact(old(lines).notation()) && is_normal(
                old(lines).notation(),
                column_at(old(lines)@, old(self)@),
            ) ==> final(self)@.offset + column_at(old(lines)@, old(self)@).len()
                == old(self)@.offset + column_at(final(lines)@, old(self)@).len(),
    {
        match lines.insert_at(self, tok) {
            Ok(n) => {
                proof {
                    let table = old(lines).notation();
                    let column = column_at(old(lines)@, old(self)@);
                    lemma_normalize_len(table, column.insert(old(self)@.offset as int, tok));
                    if is_compact(table) && is_normal(table, column) {
                        lemma_insert_removes_few(table, column, old(self)@.offset as int, tok);
                    }
                }
                if n <= self.i {
                    self.i = self.i - n + 1;
                } else {
                    self.i = 0;
                }
                Ok(())
            },
            Err(_) => vstd::pervasive::unreached(),
        }
    }
}

} // verus!
