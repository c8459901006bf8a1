//! The line buffer: the lines of a proof in order, each knowing its place.

use crate::consts::{canonical, Style, Table, TableView};
use crate::cursor::{Col, Cursor, Position};
use crate::line::{line_text, Line, LineView};
use crate::text::push_char;
use crate::tok::{is_normal, normalize, Token};
use vstd::prelude::*;
use vstd::string::StringExecFns;

verus! {

/// Every line carries its own index as its number.
pub open spec fn is_numbered(s: Seq<LineView>) -> bool {
    forall|i: int| 0 <= i < s.len() ==> (#[trigger] s[i]).no == i
}

/// A buffer as it should be: at least one line, and every line numbered by
/// its index.
pub open spec fn is_buffer(s: Seq<LineView>) -> bool {
    s.len() >= 1 && is_numbered(s)
}

/// The lines of `s`, each with a number of `no` or more counted one up.
pub open spec fn shifted_up(s: Seq<LineView>, no: nat) -> Seq<LineView> {
    Seq::new(
        s.len(),
        |i: int|
            if s[i].no >= no {
                s[i].numbered(s[i].no + 1)
            } else {
                s[i]
            },
    )
}

/// The lines of `s`, each with a number above `no` counted one down.
pub open spec fn shifted_down(s: Seq<LineView>, no: nat) -> Seq<LineView> {
    Seq::new(
        s.len(),
        |i: int|
            if s[i].no > no {
                s[i].numbered((s[i].no - 1) as nat)
            } else {
                s[i]
            },
    )
}

/// `s` with `line` put at the index that is its number, the numbers from
/// there on counted one up to make room.
pub open spec fn with_line(s: Seq<LineView>, line: LineView) -> Seq<LineView> {
    shifted_up(s, line.no).insert(line.no as int, line)
}

/// `s` without the line at index `no`, the numbers above `no` counted one
/// down to close the gap.
pub open spec fn without_line(s: Seq<LineView>, no: nat) -> Seq<LineView> {
    shifted_down(s.remove(no as int), no)
}

/// The line `l` with its step and its method in normal form under the table
/// `t`.
pub open spec fn simplified(t: TableView, l: LineView) -> LineView {
    LineView { step: normalize(t, l.step), method: normalize(t, l.method), ..l }
}

/// The position `p` lies in `s`: on one of its lines, and not behind the end
/// of its column.
pub open spec fn in_bounds(s: Seq<LineView>, p: Position) -> bool {
    p.line < s.len() && p.offset <= s[p.line as int].column(p.col).len()
}

/// `s` with `tokens` as the column that `p` is in.
pub open spec fn with_column_at(s: Seq<LineView>, p: Position, tokens: Seq<Token>) -> Seq<
    LineView,
> {
    s.update(p.line as int, s[p.line as int].with_column(p.col, tokens))
}

/// The column that `p` is in.
pub open spec fn column_at(s: Seq<LineView>, p: Position) -> Seq<Token> {
    s[p.line as int].column(p.col)
}

/// `s` after `tok` was typed at `p`: the token stands at the offset of `p` in
/// its column, and that column is brought into normal form under the table
/// `t`.
pub open spec fn typed_at(t: TableView, s: Seq<LineView>, p: Position, tok: Token) -> Seq<
    LineView,
> {
    with_column_at(s, p, normalize(t, column_at(s, p).insert(p.offset as int, tok)))
}

/// The lines as text, each followed by a line feed, the tokens written as the
/// table `t` has it, with the marker of the cursor `at` where there is one.
pub open spec fn lines_text(
    t: TableView,
    s: Seq<LineView>,
    at: Option<Position>,
    style: Style,
) -> Seq<char>
    decreases s.len(),
{
    if s.len() == 0 {
        Seq::empty()
    } else {
        lines_text(t, s.drop_last(), at, style) + line_text(t, s.last(), at, style).push('\n')
    }
}

/// Putting a line into a numbered buffer at an index that it has or that
/// follows its last leaves it numbered.
pub proof fn lemma_with_line_numbered(s: Seq<LineView>, line: LineView)
    requires
        is_numbered(s),
        line.no <= s.len(),
    ensures
        is_numbered(with_line(s, line)),
        with_line(s, line).len() == s.len() + 1,
{
    let up = shifted_up(s, line.no);
    let t = with_line(s, line);
    assert forall|i: int| 0 <= i < t.len() implies (#[trigger] t[i]).no == i by {
        if i < line.no {
            assert(t[i] == up[i]);
        } else if i > line.no {
            assert(t[i] == up[i - 1]);
        }
    }
}

/// Taking a line out of a numbered buffer leaves it numbered.
pub proof fn lemma_without_line_numbered(s: Seq<LineView>, no: nat)
    requires
        is_numbered(s),
        no < s.len(),
    ensures
        is_numbered(without_line(s, no)),
        without_line(s, no).len() == s.len() - 1,
{
    let cut = s.remove(no as int);
    let t = without_line(s, no);
    assert forall|i: int| 0 <= i < t.len() implies (#[trigger] t[i]).no == i by {
        if i < no {
            assert(cut[i] == s[i]);
        } else {
            assert(cut[i] == s[i + 1]);
        }
    }
}

/// The lines of a proof, and the spelling table by which they are read and
/// written.
#[derive(Clone, Debug)]
pub struct Lines {
    inner: Vec<Line>,
    table: Table,
}

impl View for Lines {
    type V = Seq<LineView>;

    closed spec fn view(&self) -> Seq<LineView> {
        views(self.inner@)
    }
}

/// What each of the lines holds.
pub open spec fn views(lines: Seq<Line>) -> Seq<LineView> {
    Seq::new(lines.len(), |i: int| lines[i]@)
}

impl Lines {
    /// The spelling table of the buffer.
    pub closed spec fn notation(&self) -> TableView {
        self.table@
    }

    /// The buffer of one empty line, with the canonical table.
    pub fn new() -> (r: Lines)
        ensures
            r@ == seq![LineView::blank(0)],
            r.notation() == canonical(),
            is_buffer(r@),
    {
        let mut v: Vec<Line> = Vec::new();
        v.push(Line::new(0));
        let r = Lines { inner: v, table: Table::canonical() };
        assert(r@ =~= seq![LineView::blank(0)]);
        r
    }

    /// The buffer of the lines of `v`, as they stand, with the canonical
    /// table.
    pub fn from_vec(v: Vec<Line>) -> (r: Lines)
        ensures
            r@ == views(v@),
            r.notation() == canonical(),
    {
        Lines { inner: v, table: Table::canonical() }
    }

    /// The buffer of the lines of `v`, as they stand, with the table `table`.
    pub fn with_table(v: Vec<Line>, table: Table) -> (r: Lines)
        ensures
            r@ == views(v@),
            r.notation() == table@,
    {
        Lines { inner: v, table }
    }

    /// The spelling table.
    pub fn table(&self) -> (t: &Table)
        ensures
            t@ == self.notation(),
    {
        &self.table
    }

    /// A buffer that is held in memory has a length that fits a `usize`.
    pub proof fn lemma_len_fits(&self)
        ensures
            self@.len() <= usize::MAX,
    {
        assert(self.inner@.len() == self.inner.len());
    }

    /// The number of lines.
    pub fn len(&self) -> (n: usize)
        ensures
            n == self@.len(),
    {
        self.inner.len()
    }

    /// The line at index `i`.
    pub fn get(&self, i: usize) -> (l: &Line)
        requires
            i < self@.len(),
        ensures
            l@ == self@[i as int],
    {
        &self.inner[i]
    }

    /// Whether the buffer is as it should be: it has a line, and every line
    /// is numbered by its index.
    pub fn is_buffer(&self) -> (b: bool)
        ensures
            b == is_buffer(self@),
    {
        let len = self.inner.len();
        if len == 0 {
            return false;
        }
        let mut i: usize = 0;
        while i < len
            invariant
                i <= len,
                len == self.inner@.len(),
                forall|j: int| 0 <= j < i ==> (#[trigger] self@[j]).no == j,
            decreases len - i,
        {
            assert(self@[i as int] == self.inner@[i as int]@);
            if self.inner[i].no != i {
                return false;
            }
            i += 1;
        }
        true
    }

    /// Puts `nl` at the index that is its number, after counting the number
    /// of every line from there on one up.
    pub fn insert_line(&mut self, nl: Line)
        requires
            nl@.no <= old(self)@.len(),
            forall|i: int|
                0 <= i < old(self)@.len() && old(self)@[i].no >= nl@.no ==> old(self)@[i].no
                    < usize::MAX,
        ensures
            final(self)@ == with_line(old(self)@, nl@),
            final(self).notation() == old(self).notation(),
            final(self)@.len() == old(self)@.len() + 1,
            is_numbered(old(self)@) ==> is_numbered(final(self)@),
    {
        let no = nl.no;
        let len = self.inner.len();
        let mut i: usize = 0;
        assert forall|j: int|
            0 <= j < len && self.inner@[j]@.no >= no implies self.inner@[j]@.no < usize::MAX by {
            assert(self@[j] == self.inner@[j]@);
        }
        while i < len
            invariant
                i <= len,
                len == self.inner@.len(),
                len == old(self).inner@.len(),
                forall|j: int|
                    0 <= j < len && old(self).inner@[j]@.no >= no ==> old(self).inner@[j]@.no
                        < usize::MAX,
                self.table == old(self).table,
                forall|j: int|
                    0 <= j < i ==> self.inner@[j]@ == shifted_up(old(self)@, no as nat)[j],
                forall|j: int| i <= j < len ==> self.inner@[j] == old(self).inner@[j],
            decreases len - i,
        {
            if self.inner[i].no >= no {
                let ghost before = self.inner@;
                let l = &mut self.inner[i];
                l.no += 1;
                assert(self.inner@ == before.update(i as int, self.inner@[i as int]));
            }
            i += 1;
        }
        self.inner.insert(no, nl);
        proof {
            assert(self@ =~= with_line(old(self)@, nl@));
            if is_numbered(old(self)@) {
                lemma_with_line_numbered(old(self)@, nl@);
            }
        }
    }

    /// Takes out the line at index `no`, and counts the number of every line
    /// whose number is above `no` one down.
    pub fn delete_line(&mut self, no: usize)
        requires
            no < old(self)@.len(),
        ensures
            final(self)@ == without_line(old(self)@, no as nat),
            final(self).notation() == old(self).notation(),
            final(self)@.len() == old(self)@.len() - 1,
            is_numbered(old(self)@) ==> is_numbered(final(self)@),
    {
        self.inner.remove(no);
        let ghost cut = self.inner@;
        assert(views(cut) =~= old(self)@.remove(no as int));
        let len = self.inner.len();
        let mut i: usize = 0;
        while i < len
            invariant
                i <= len,
                len == self.inner@.len(),
                len == cut.len(),
                self.table == old(self).table,
                forall|j: int|
                    0 <= j < i ==> self.inner@[j]@ == shifted_down(views(cut), no as nat)[j],
                forall|j: int| i <= j < len ==> self.inner@[j] == cut[j],
            decreases len - i,
        {
            if self.inner[i].no > no {
                let ghost before = self.inner@;
                let l = &mut self.inner[i];
                l.no -= 1;
                assert(self.inner@ == before.update(i as int, self.inner@[i as int]));
            }
            i += 1;
        }
        proof {
            assert(self@ =~= without_line(old(self)@, no as nat));
            if is_numbered(old(self)@) {
                lemma_without_line_numbered(old(self)@, no as nat);
            }
        }
    }

    /// Puts `tok` where `cursor` stands and brings that column into normal
    /// form under the table of the buffer. Returns the number of tokens by which the column is shorter
    /// after normalizing than it was with the new token in it. A cursor that
    /// does not lie in the buffer is refused, and nothing changes.
    pub fn insert_at(&mut self, cursor: &Cursor, tok: Token) -> (r: Result<usize, ()>)
        ensures
            r is Ok == in_bounds(old(self)@, cursor@),
            r is Err ==> final(self)@ == old(self)@,
            final(self).notation() == old(self).notation(),
            r matches Ok(n) ==> {
                &&& final(self)@ == typed_at(old(self).notation(), old(self)@, cursor@, tok)
                &&& n == column_at(old(self)@, cursor@).len() + 1 - column_at(
                    final(self)@,
                    cursor@,
                ).len()
                &&& is_normal(old(self).notation(), column_at(final(self)@, cursor@))
                &&& column_at(old(self)@, cursor@).len() < usize::MAX
            },
    {
        let no = cursor.line();
        let col = cursor.column();
        let i = cursor.offset();
        if no >= self.inner.len() {
            return Err(());
        }
        assert(self@[no as int] == self.inner@[no as int]@);
        let ghost before = self.inner@;
        let l = &mut self.inner[no];
        let toks = match col {
            Col::Step => &mut l.step,
            Col::Method => &mut l.method,
        };
        if i > toks.len() {
            return Err(());
        }
        toks.insert(i, tok);
        proof {
            toks.lemma_len_fits();
        }
        let n = toks.simplify_with(&self.table);
        proof {
            assert(self.inner@ == before.update(no as int, self.inner@[no as int]));
            assert(self@ =~= typed_at(old(self).notation(), old(self)@, cursor@, tok));
        }
        Ok(n)
    }

    /// Takes out the token at index `i` of the column `col` of line `no`.
    pub fn remove_token(&mut self, no: usize, col: Col, i: usize) -> (t: Token)
        requires
            no < old(self)@.len(),
            i < old(self)@[no as int].column(col).len(),
        ensures
            t == old(self)@[no as int].column(col)[i as int],
            final(self).notation() == old(self).notation(),
            final(self)@ == old(self)@.update(
                no as int,
                old(self)@[no as int].with_column(
                    col,
                    old(self)@[no as int].column(col).remove(i as int),
                ),
            ),
    {
        assert(self@[no as int] == self.inner@[no as int]@);
        let ghost before = self.inner@;
        let l = &mut self.inner[no];
        let t = match col {
            Col::Step => l.step.remove(i),
            Col::Method => l.method.remove(i),
        };
        proof {
            assert(self.inner@ == before.update(no as int, self.inner@[no as int]));
            assert(self@ =~= old(self)@.update(
                no as int,
                old(self)@[no as int].with_column(
                    col,
                    old(self)@[no as int].column(col).remove(i as int),
                ),
            ));
        }
        t
    }

    /// The lines as text in `style`, each followed by a line feed, without a
    /// marker.
    pub fn format(&self, style: Style) -> (r: String)
        ensures
            r@ == lines_text(self.notation(), self@, None, style),
    {
        self.layout(None, style)
    }

    /// The lines as text in `style`, each followed by a line feed, with the
    /// marker where the cursor `c` stands.
    pub fn fmt_cursor(&self, style: Style, c: &Cursor) -> (r: String)
        ensures
            r@ == lines_text(self.notation(), self@, Some(c@), style),
    {
        self.layout(Some(c), style)
    }

    fn layout(&self, c: Option<&Cursor>, style: Style) -> (r: String)
        ensures
            r@ == lines_text(
                self.notation(),
                self@,
                match c {
                    Some(c) => Some(c@),
                    None => None,
                },
                style,
            ),
    {
        let ghost at = match c {
            Some(c) => Some(c@),
            None => None,
        };
        let mut r = String::new();
        let len = self.inner.len();
        let mut i: usize = 0;
        assert(self@.take(0) =~= Seq::<LineView>::empty());
        while i < len
            invariant
                i <= len,
                len == self.inner@.len(),
                at == match c {
                    Some(c) => Some(c@),
                    None => None,
                },
                r@ == lines_text(self.table@, self@.take(i as int), at, style),
            decreases len - i,
        {
            proof {
                let next = self@.take(i + 1);
                assert(next.drop_last() =~= self@.take(i as int));
                assert(next.last() == self.inner@[i as int]@);
            }
            let text = match c {
                Some(c) => self.inner[i].fmt_cursor_with(&self.table, style, c),
                None => self.inner[i].format_with(&self.table, style),
            };
            r.append(text.as_str());
            push_char(&mut r, '\n');
            i += 1;
        }
        assert(self@.take(len as int) =~= self@);
        r
    }

    /// Brings the step and the method of every line into normal form under
    /// the table of the buffer.
    pub fn simplify(&mut self)
        ensures
            final(self)@.len() == old(self)@.len(),
            final(self).notation() == old(self).notation(),
            forall|i: int|
                0 <= i < old(self)@.len() ==> final(self)@[i] == simplified(
                    old(self).notation(),
                    old(self)@[i],
                ),
    {
        let len = self.inner.len();
        let mut i: usize = 0;
        while i < len
            invariant
                i <= len,
                len == self.inner@.len(),
                len == old(self).inner@.len(),
                self.table == old(self).table,
                forall|j: int|
                    0 <= j < i ==> self.inner@[j]@ == simplified(
                        self.table@,
                        old(self).inner@[j]@,
                    ),
                forall|j: int| i <= j < len ==> self.inner@[j] == old(self).inner@[j],
            decreases len - i,
        {
            let ghost before = self.inner@;
            let l = &mut self.inner[i];
            l.simplify_with(&self.table);
            assert(self.inner@ == before.update(i as int, self.inner@[i as int]));
            i += 1;
        }
    }
}

} // verus!
