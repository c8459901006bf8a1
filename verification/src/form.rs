//! Formulas of propositional logic and how they are written out.

use crate::consts::{canonical, glyph, Op, Style, Table, TableView};
use crate::text::push_char;
use crate::tok::{lemma_parse_is_normal, normalize, parse, Token};
use vstd::prelude::*;
use vstd::string::StringExecFns;

verus! {

/// A formula: a variable, a negation, or two formulas joined by a binary
/// operator.
#[derive(Debug, PartialEq, Eq)]
pub enum Formula {
    Var(char),
    Not(Box<Formula>),
    And(Box<Formula>, Box<Formula>),
    Or(Box<Formula>, Box<Formula>),
    Implies(Box<Formula>, Box<Formula>),
    Iff(Box<Formula>, Box<Formula>),
}

/// `f` is a variable or the negation of a variable: the operands that are
/// written without parentheses.
pub open spec fn is_atomic(f: Formula) -> bool {
    match f {
        Formula::Var(_) => true,
        Formula::Not(p) => *p is Var,
        _ => false,
    }
}

/// The text `s` of the operand `f`, in parentheses unless `f` is atomic.
pub open spec fn bracketed(f: Formula, s: Seq<char>) -> Seq<char> {
    if is_atomic(f) {
        s
    } else {
        seq!['('] + s + seq![')']
    }
}

/// What `f` is written as in `style` by the table `t`. An operator stands
/// before its one operand or between its two; every operand that is not atomic
/// is put in parentheses, the left one as the right one. No operator binds
/// tighter than another.
pub open spec fn text(t: TableView, f: Formula, style: Style) -> Seq<char>
    decreases f,
{
    match f {
        Formula::Var(c) => seq![c],
        Formula::Not(p) => glyph(t, Token::Not, style) + bracketed(*p, text(t, *p, style)),
        Formula::And(p, q) => bracketed(*p, text(t, *p, style)) + glyph(t, Token::And, style)
            + bracketed(*q, text(t, *q, style)),
        Formula::Or(p, q) => bracketed(*p, text(t, *p, style)) + glyph(t, Token::Or, style)
            + bracketed(*q, text(t, *q, style)),
        Formula::Implies(p, q) => bracketed(*p, text(t, *p, style)) + glyph(
            t,
            Token::Implies,
            style,
        ) + bracketed(*q, text(t, *q, style)),
        Formula::Iff(p, q) => bracketed(*p, text(t, *p, style)) + glyph(t, Token::Iff, style)
            + bracketed(*q, text(t, *q, style)),
    }
}

/// Reading back what a formula is written as gives tokens that are in normal
/// form already: normalizing them changes nothing.
pub proof fn lemma_text_reads_normal(t: TableView, f: Formula, style: Style)
    ensures
        normalize(t, parse(t, text(t, f, style))) == parse(t, text(t, f, style)),
{
    lemma_parse_is_normal(t, text(t, f, style));
}

impl Formula {
    /// Whether the formula is written without parentheses as an operand.
    pub fn atomic(&self) -> (b: bool)
        ensures
            b == is_atomic(*self),
    {
        match self {
            Formula::Var(_) => true,
            Formula::Not(p) => match **p {
                Formula::Var(_) => true,
                _ => false,
            },
            _ => false,
        }
    }

    /// Appends to `out` the formula as an operand.
    fn write_operand(&self, out: &mut String, table: &Table, style: Style)
        ensures
            final(out)@ == old(out)@ + bracketed(*self, text(table@, *self, style)),
        decreases *self, 1nat,
    {
        if self.atomic() {
            self.write(out, table, style);
        } else {
            push_char(out, '(');
            self.write(out, table, style);
            push_char(out, ')');
            assert(out@ =~= old(out)@ + bracketed(*self, text(table@, *self, style)));
        }
    }

    /// Appends to `out` what the formula is written as in `style` by `table`.
    pub fn write(&self, out: &mut String, table: &Table, style: Style)
        ensures
            final(out)@ == old(out)@ + text(table@, *self, style),
        decreases *self, 0nat,
    {
        match self {
            Formula::Var(c) => {
                assert(old(out)@.push(*c) =~= old(out)@ + text(table@, *self, style));
                push_char(out, *c);
            },
            Formula::Not(p) => {
                out.append(table.glyph(Op::Not, style));
                p.write_operand(out, table, style);
                assert(out@ =~= old(out)@ + text(table@, *self, style));
            },
            Formula::And(p, q) => {
                p.write_operand(out, table, style);
                out.append(table.glyph(Op::And, style));
                q.write_operand(out, table, style);
                assert(out@ =~= old(out)@ + text(table@, *self, style));
            },
            Formula::Or(p, q) => {
                p.write_operand(out, table, style);
                out.append(table.glyph(Op::Or, style));
                q.write_operand(out, table, style);
                assert(out@ =~= old(out)@ + text(table@, *self, style));
            },
            Formula::Implies(p, q) => {
                p.write_operand(out, table, style);
                out.append(table.glyph(Op::Implies, style));
                q.write_operand(out, table, style);
                assert(out@ =~= old(out)@ + text(table@, *self, style));
            },
            Formula::Iff(p, q) => {
                p.write_operand(out, table, style);
                out.append(table.glyph(Op::Iff, style));
                q.write_operand(out, table, style);
                assert(out@ =~= old(out)@ + text(table@, *self, style));
            },
        }
    }

    /// What the formula is written as in `style` by `table`.
    pub fn render_with(&self, table: &Table, style: Style) -> (r: String)
        ensures
            r@ == text(table@, *self, style),
    {
        let mut r = String::new();
        self.write(&mut r, table, style);
        assert(Seq::<char>::empty() + text(table@, *self, style) =~= text(table@, *self, style));
        r
    }

    /// What the formula is written as in `style` by the canonical table.
    pub fn render(&self, style: Style) -> (r: String)
        ensures
            r@ == text(canonical(), *self, style),
    {
        self.render_with(&Table::canonical(), style)
    }
}

} // verus!
