//! One line of a proof, and how it is laid out as text.

use crate::consts::{canonical, Style, Table, TableView};
use crate::cursor::{Col, Cursor, Position};
use crate::text::{
    decimal, left_aligned, push_char, push_decimal, push_left_aligned, push_right_aligned,
    right_aligned,
};
use crate::tok::{glyphs, is_normal, normalize, Token, Tokens};
use vstd::prelude::*;

verus! {

/// A line of a proof.
#[derive(Clone, Debug)]
pub struct Line {
    /// The number of the line in its proof, starting at 0. It is written out
    /// one higher.
    pub no: usize,
    /// The step of the proof that the line asserts, such as `(P^Q)->P`. The
    /// tokens need not form a formula.
    pub step: Tokens,
    /// The method by which the step is justified.
    pub method: Tokens,
    /// The numbers of the lines that the step depends on, starting at 0.
    pub deps: Vec<usize>,
}

/// What a line holds.
pub struct LineView {
    pub no: nat,
    pub step: Seq<Token>,
    pub method: Seq<Token>,
    pub deps: Seq<usize>,
}

impl View for Line {
    type V = LineView;

    open spec fn view(&self) -> LineView {
        LineView { no: self.no as nat, step: self.step@, method: self.method@, deps: self.deps@ }
    }
}

impl LineView {
    /// The empty line with the number `no`.
    pub open spec fn blank(no: nat) -> LineView {
        LineView { no, step: Seq::empty(), method: Seq::empty(), deps: Seq::empty() }
    }

    /// Neither the step nor the method holds a token.
    pub open spec fn is_empty(self) -> bool {
        self.step.len() == 0 && self.method.len() == 0
    }

    /// The tokens of the column `col`.
    pub open spec fn column(self, col: Col) -> Seq<Token> {
        match col {
            Col::Step => self.step,
            Col::Method => self.method,
        }
    }

    /// The line with `tokens` as its column `col`.
    pub open spec fn with_column(self, col: Col, tokens: Seq<Token>) -> LineView {
        match col {
            Col::Step => LineView { step: tokens, ..self },
            Col::Method => LineView { method: tokens, ..self },
        }
    }

    /// The line with the number `no`.
    pub open spec fn numbered(self, no: nat) -> LineView {
        LineView { no, ..self }
    }
}

/// The width of the column that the number of a line is written in.
pub const NUMBER_WIDTH: usize = 3;

/// The width of the column that the step is written in.
pub const STEP_WIDTH: usize = 20;

/// The width of the column that the method is written in.
pub const METHOD_WIDTH: usize = 15;

/// The marker that shows where the cursor stands.
pub open spec fn marker() -> char {
    '|'
}

/// The offset at which the marker stands in the column `col` of `line`: that
/// of the cursor `at`, where it is on that line, in that column, and not
/// behind the column's end.
pub open spec fn mark_in(line: LineView, col: Col, at: Option<Position>) -> Option<int> {
    match at {
        Some(p) => if p.line == line.no && p.col == col && p.offset <= line.column(col).len() {
            Some(p.offset as int)
        } else {
            None
        },
        None => None,
    }
}

/// What the tokens `s` are written as by the table `t`, with the marker
/// before the token at index `mark` where there is one.
pub open spec fn column_text(t: TableView, s: Seq<Token>, mark: Option<int>, style: Style) -> Seq<
    char,
> {
    match mark {
        Some(i) => glyphs(t, s.take(i), style).push(marker()) + glyphs(t, s.skip(i), style),
        None => glyphs(t, s, style),
    }
}

/// The dependencies as they are written: each one higher than it is stored,
/// with a comma and a blank between two of them.
pub open spec fn deps_text(deps: Seq<usize>) -> Seq<char>
    decreases deps.len(),
{
    if deps.len() == 0 {
        Seq::empty()
    } else if deps.len() == 1 {
        decimal((deps[0] + 1) as nat)
    } else {
        deps_text(deps.drop_last()) + seq![',', ' '] + decimal((deps.last() + 1) as nat)
    }
}

/// The four parts of a line put together: the number, right-aligned and
/// followed by a full stop; the step and the method, each left-aligned; and
/// the dependencies in braces; with one blank between each two of them. A part
/// that is wider than its column is not cut.
pub open spec fn laid_out(
    number: Seq<char>,
    step: Seq<char>,
    method: Seq<char>,
    deps: Seq<char>,
) -> Seq<char> {
    right_aligned(number, NUMBER_WIDTH as nat) + seq!['.', ' '] + left_aligned(
        step,
        STEP_WIDTH as nat,
    ) + seq![' '] + left_aligned(method, METHOD_WIDTH as nat) + seq![' ', '{'] + deps + seq!['}']
}

/// The line as text: its number, one higher than it is stored, its step, its
/// method and its dependencies, laid out in their columns, the tokens written
/// as the table `t` has it. The marker stands where `mark_in` puts it.
pub open spec fn line_text(t: TableView, line: LineView, at: Option<Position>, style: Style) -> Seq<
    char,
> {
    laid_out(
        decimal(line.no + 1),
        column_text(t, line.step, mark_in(line, Col::Step, at), style),
        column_text(t, line.method, mark_in(line, Col::Method, at), style),
        deps_text(line.deps),
    )
}

/// What the tokens `s` are written as in `style` by `table`, with the marker
/// before the token at index `mark` where there is one.
fn render_column(s: &Tokens, mark: Option<usize>, table: &Table, style: Style) -> (r: String)
    requires
        mark matches Some(i) ==> i <= s@.len(),
    ensures
        r@ == column_text(
            table@,
            s@,
            match mark {
                Some(i) => Some(i as int),
                None => None,
            },
            style,
        ),
{
    let mut r = String::new();
    let len = s.len();
    match mark {
        Some(i) => {
            s.write_range(&mut r, 0, i, table, style);
            push_char(&mut r, '|');
            s.write_range(&mut r, i, len, table, style);
            proof {
                assert(s@.subrange(0, i as int) =~= s@.take(i as int));
                assert(s@.subrange(i as int, len as int) =~= s@.skip(i as int));
                assert(r@ =~= column_text(table@, s@, Some(i as int), style));
            }
        },
        None => {
            s.write_range(&mut r, 0, len, table, style);
            proof {
                assert(s@.subrange(0, len as int) =~= s@);
                assert(r@ =~= glyphs(table@, s@, style));
            }
        },
    }
    r
}

/// Appends the dependencies to `out` as they are written.
fn push_deps(out: &mut String, deps: &Vec<usize>)
    ensures
        final(out)@ == old(out)@ + deps_text(deps@),
{
    let mut i: usize = 0;
    assert(deps@.take(0) =~= Seq::<usize>::empty());
    assert(out@ + deps_text(deps@.take(0)) =~= out@);
    while i < deps.len()
        invariant
            i <= deps.len(),
            out@ == old(out)@ + deps_text(deps@.take(i as int)),
        decreases deps.len() - i,
    {
        let ghost before = out@;
        let ghost next = deps@.take(i + 1);
        proof {
            assert(next.drop_last() =~= deps@.take(i as int));
            assert(next.last() == deps@[i as int]);
        }
        if i > 0 {
            push_char(out, ',');
            push_char(out, ' ');
        }
        let d = deps[i];
        push_decimal(out, d as u128 + 1);
        proof {
            if i > 0 {
                assert(before.push(',').push(' ') =~= before + seq![',', ' ']);
                assert(out@ =~= old(out)@ + (deps_text(next.drop_last()) + seq![',', ' ']
                    + decimal((next.last() + 1) as nat)));
                assert(next.len() > 1);
            } else {
                assert(next.len() == 1);
                assert(next[0] == deps@[0]);
                assert(deps_text(deps@.take(0)) =~= Seq::<char>::empty());
                assert(out@ =~= old(out)@ + decimal((next[0] + 1) as nat));
            }
        }
        i += 1;
    }
    assert(deps@.take(i as int) =~= deps@);
}

impl Line {
    /// The empty line with the number `no`.
    pub fn new(no: usize) -> (l: Line)
        ensures
            l@ == LineView::blank(no as nat),
    {
        Line { no: no, step: Tokens::new(), method: Tokens::new(), deps: Vec::new() }
    }

    /// The line with the number `no` and the step `step`, and nothing else.
    pub fn with_step(no: usize, step: Tokens) -> (l: Line)
        ensures
            l@ == (LineView { step: step@, ..LineView::blank(no as nat) }),
    {
        Line { no: no, step: step, method: Tokens::new(), deps: Vec::new() }
    }

    /// The line made of the four parts given.
    pub fn full(no: usize, step: Tokens, method: Tokens, deps: Vec<usize>) -> (l: Line)
        ensures
            l@ == (LineView { no: no as nat, step: step@, method: method@, deps: deps@ }),
    {
        Line { no: no, step: step, method: method, deps: deps }
    }

    /// True if neither the step nor the method holds a token.
    pub fn is_empty(&self) -> (b: bool)
        ensures
            b == self@.is_empty(),
    {
        self.step.is_empty() && self.method.is_empty()
    }

    /// Brings the step and the method into normal form under `table`.
    pub fn simplify_with(&mut self, table: &Table)
        ensures
            final(self)@ == (LineView {
                step: normalize(table@, old(self)@.step),
                method: normalize(table@, old(self)@.method),
                ..old(self)@
            }),
            is_normal(table@, final(self)@.step),
            is_normal(table@, final(self)@.method),
    {
        self.step.simplify_with(table);
        self.method.simplify_with(table);
    }

    /// Brings the step and the method into normal form under the canonical
    /// table.
    pub fn simplify(&mut self)
        ensures
            final(self)@ == (LineView {
                step: normalize(canonical(), old(self)@.step),
                method: normalize(canonical(), old(self)@.method),
                ..old(self)@
            }),
            is_normal(canonical(), final(self)@.step),
            is_normal(canonical(), final(self)@.method),
    {
        self.simplify_with(&Table::canonical());
    }

    /// The offset at which the marker of the cursor `c` stands in the column
    /// `col` of this line, if it stands there.
    fn mark_of(&self, col: Col, c: &Cursor) -> (m: Option<usize>)
        ensures
            mark_in(self@, col, Some(c@)) == match m {
                Some(i) => Some(i as int),
                None => None::<int>,
            },
            m matches Some(i) ==> i <= self@.column(col).len(),
    {
        let len = match col {
            Col::Step => self.step.len(),
            Col::Method => self.method.len(),
        };
        if c.line() == self.no && c.column() == col && c.offset() <= len {
            Some(c.offset())
        } else {
            None
        }
    }

    /// The number of the line as it is written: one higher than it is
    /// stored.
    pub fn number_text(&self) -> (r: String)
        ensures
            r@ == decimal(self@.no + 1),
    {
        let mut r = String::new();
        push_decimal(&mut r, self.no as u128 + 1);
        assert(r@ =~= decimal(self@.no + 1));
        r
    }

    /// The column `col` as text in `style` by `table`, with the marker where
    /// the cursor `c` stands, if it stands in that column of this line.
    pub fn column_text(&self, col: Col, table: &Table, style: Style, c: &Cursor) -> (r: String)
        ensures
            r@ == column_text(
                table@,
                self@.column(col),
                mark_in(self@, col, Some(c@)),
                style,
            ),
    {
        let mark = self.mark_of(col, c);
        match col {
            Col::Step => render_column(&self.step, mark, table, style),
            Col::Method => render_column(&self.method, mark, table, style),
        }
    }

    /// The dependencies as they are written.
    pub fn deps_text(&self) -> (r: String)
        ensures
            r@ == deps_text(self@.deps),
    {
        let mut r = String::new();
        push_deps(&mut r, &self.deps);
        assert(r@ =~= deps_text(self@.deps));
        r
    }

    /// The line laid out as text, with the marks given.
    fn layout(
        &self,
        step_mark: Option<usize>,
        method_mark: Option<usize>,
        table: &Table,
        style: Style,
    ) -> (r: String)
        requires
            step_mark matches Some(i) ==> i <= self@.step.len(),
            method_mark matches Some(i) ==> i <= self@.method.len(),
        ensures
            r@ == laid_out(
                decimal(self@.no + 1),
                column_text(
                    table@,
                    self@.step,
                    match step_mark {
                        Some(i) => Some(i as int),
                        None => None,
                    },
                    style,
                ),
                column_text(
                    table@,
                    self@.method,
                    match method_mark {
                        Some(i) => Some(i as int),
                        None => None,
                    },
                    style,
                ),
                deps_text(self@.deps),
            ),
    {
        let mut r = String::new();
        let number = self.number_text();
        push_right_aligned(&mut r, number.as_str(), NUMBER_WIDTH);
        push_char(&mut r, '.');
        push_char(&mut r, ' ');
        let step = render_column(&self.step, step_mark, table, style);
        push_left_aligned(&mut r, step.as_str(), STEP_WIDTH);
        push_char(&mut r, ' ');
        let method = render_column(&self.method, method_mark, table, style);
        push_left_aligned(&mut r, method.as_str(), METHOD_WIDTH);
        push_char(&mut r, ' ');
        push_char(&mut r, '{');
        push_deps(&mut r, &self.deps);
        push_char(&mut r, '}');
        assert(r@ =~= laid_out(number@, step@, method@, deps_text(self@.deps)));
        r
    }

    /// The line as text in `style` by `table`, with the marker where the
    /// cursor `c` stands, if it stands on this line.
    pub fn fmt_cursor_with(&self, table: &Table, style: Style, c: &Cursor) -> (r: String)
        ensures
            r@ == line_text(table@, self@, Some(c@), style),
    {
        let step_mark = self.mark_of(Col::Step, c);
        let method_mark = self.mark_of(Col::Method, c);
        self.layout(step_mark, method_mark, table, style)
    }

    /// The line as text in `style` by the canonical table, with the marker
    /// where the cursor `c` stands, if it stands on this line.
    pub fn fmt_cursor(&self, style: Style, c: &Cursor) -> (r: String)
        ensures
            r@ == line_text(canonical(), self@, Some(c@), style),
    {
        self.fmt_cursor_with(&Table::canonical(), style, c)
    }

    /// The line as text in `style` by `table`, without a marker.
    pub fn format_with(&self, table: &Table, style: Style) -> (r: String)
        ensures
            r@ == line_text(table@, self@, None, style),
    {
        self.layout(None, None, table, style)
    }

    /// The line as text in `style` by the canonical table, without a marker.
    pub fn format(&self, style: Style) -> (r: String)
        ensures
            r@ == line_text(canonical(), self@, None, style),
    {
        self.format_with(&Table::canonical(), style)
    }
}

} // verus!
