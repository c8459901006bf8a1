//! Tokens, token sequences, and the normal form of a token sequence.

use crate::consts::{
    glyph, is_compact, lemma_spelling_is_local, lemma_spelling_overlap, lemma_spelling_shape,
    operator, spelled_len, spelling, Style, Table, TableView,
};
use crate::text::{chars_of, push_char};
use vstd::prelude::*;
use vstd::string::StringExecFns;

verus! {

/// An atomic symbol: a literal character or an operator.
#[derive(Copy, Clone, Debug, PartialEq, Eq, Structural)]
pub enum Token {
    Char(char),
    Not,
    And,
    Or,
    Implies,
    Iff,
}

impl Token {
    /// The literal token of the character `c`.
    pub fn literal(c: char) -> (t: Token)
        ensures
            t == Token::Char(c),
    {
        Token::Char(c)
    }

    /// Appends to `out` what the token is written as in `style` by `table`.
    pub fn write(&self, out: &mut String, table: &Table, style: Style)
        ensures
            final(out)@ == old(out)@ + glyph(table@, *self, style),
    {
        match *self {
            Token::Char(c) => {
                assert(old(out)@.push(c) =~= old(out)@ + glyph(table@, *self, style));
                push_char(out, c);
            },
            _ => {
                match operator(*self) {
                    Some(op) => out.append(table.glyph(op, style)),
                    None => {},
                }
            },
        }
    }

    /// What the token is written as in `style` by `table`.
    pub fn render_with(&self, table: &Table, style: Style) -> (r: String)
        ensures
            r@ == glyph(table@, *self, style),
    {
        let mut r = String::new();
        self.write(&mut r, table, style);
        assert(Seq::<char>::empty() + glyph(table@, *self, style) =~= glyph(table@, *self, style));
        r
    }

    /// What the token is written as in `style` by the canonical table.
    pub fn render(&self, style: Style) -> (r: String)
        ensures
            r@ == glyph(crate::consts::canonical(), *self, style),
    {
        self.render_with(&Table::canonical(), style)
    }
}

/// What the tokens of `s` are written as in `style` by the table `t`, one
/// after the other.
pub open spec fn glyphs(t: TableView, s: Seq<Token>, style: Style) -> Seq<char>
    decreases s.len(),
{
    if s.len() == 0 {
        Seq::empty()
    } else {
        glyphs(t, s.drop_last(), style) + glyph(t, s.last(), style)
    }
}

/// The normal form of `s` under the table `t`: read from the left, every run
/// of literals that spells an operator is replaced by that operator, and every
/// other token is kept as it is.
pub open spec fn normalize(t: TableView, s: Seq<Token>) -> Seq<Token>
    decreases s.len(),
{
    if s.len() == 0 {
        Seq::empty()
    } else {
        match spelling(t, s) {
            Some((op, n)) => {
                proof {
                    lemma_spelling_shape(t, s);
                }
                seq![op] + normalize(t, s.skip(n as int))
            },
            None => seq![s[0]] + normalize(t, s.skip(1)),
        }
    }
}

/// No operator spelling of `t` starts anywhere in `s`.
pub open spec fn is_normal(t: TableView, s: Seq<Token>) -> bool {
    forall|i: int| 0 <= i < s.len() ==> spelling(t, #[trigger] s.skip(i)) is None
}

/// Each character of `text` as a literal token.
pub open spec fn literals(text: Seq<char>) -> Seq<Token>
    decreases text.len(),
{
    if text.len() == 0 {
        Seq::empty()
    } else {
        literals(text.drop_last()).push(Token::Char(text.last()))
    }
}

/// The tokens that `text` is read as under the table `t`.
pub open spec fn parse(t: TableView, text: Seq<char>) -> Seq<Token> {
    normalize(t, literals(text))
}

/// Normalizing never lengthens a sequence.
pub proof fn lemma_normalize_len(t: TableView, s: Seq<Token>)
    ensures
        normalize(t, s).len() <= s.len(),
    decreases s.len(),
{
    if s.len() > 0 {
        match spelling(t, s) {
            Some((op, n)) => {
                lemma_spelling_shape(t, s);
                lemma_normalize_len(t, s.skip(n as int));
            },
            None => lemma_normalize_len(t, s.skip(1)),
        }
    }
}

/// A sequence in which no spelling starts is its own normal form.
pub proof fn lemma_normal_is_fixed(t: TableView, s: Seq<Token>)
    requires
        is_normal(t, s),
    ensures
        normalize(t, s) == s,
    decreases s.len(),
{
    if s.len() > 0 {
        assert(s.skip(0) =~= s);
        let rest = s.skip(1);
        assert forall|i: int| 0 <= i < rest.len() implies spelling(t, #[trigger] rest.skip(i))
            is None by {
            assert(rest.skip(i) =~= s.skip(i + 1));
        }
        lemma_normal_is_fixed(t, rest);
        assert(seq![s[0]] + rest =~= s);
    } else {
        assert(s =~= Seq::empty());
    }
}

/// The normal form of a sequence that is not empty is not empty, and where it
/// starts with a literal, that literal started the sequence and spelled
/// nothing there.
proof fn lemma_normalize_head(t: TableView, s: Seq<Token>)
    requires
        s.len() > 0,
    ensures
        normalize(t, s).len() > 0,
        normalize(t, s)[0] is Char ==> spelling(t, s) is None && normalize(t, s)[0] == s[0]
            && normalize(t, s).skip(1) == normalize(t, s.skip(1)),
{
    if spelling(t, s) is Some {
        lemma_spelling_shape(t, s);
    } else {
        assert(normalize(t, s).skip(1) =~= normalize(t, s.skip(1)));
    }
}

/// Literals that a normal form starts with are the tokens that the sequence
/// started with.
proof fn lemma_literal_prefix(t: TableView, s: Seq<Token>, n: nat)
    requires
        n <= normalize(t, s).len(),
        forall|i: int| 0 <= i < n ==> normalize(t, s)[i] is Char,
    ensures
        n <= s.len(),
        forall|i: int| 0 <= i < n ==> s[i] == normalize(t, s)[i],
    decreases n,
{
    if n > 0 {
        let out = normalize(t, s);
        lemma_normalize_head(t, s);
        assert forall|i: int| 0 <= i < n - 1 implies normalize(t, s.skip(1))[i] is Char by {
            assert(out.skip(1)[i] == out[i + 1]);
        }
        lemma_literal_prefix(t, s.skip(1), (n - 1) as nat);
        assert forall|i: int| 0 <= i < n implies s[i] == out[i] by {
            if i > 0 {
                assert(s.skip(1)[i - 1] == s[i]);
                assert(out.skip(1)[i - 1] == out[i]);
            }
        }
    }
}

/// No spelling stands at the head of a normal form.
proof fn lemma_normalize_starts_plain(t: TableView, s: Seq<Token>)
    ensures
        spelling(t, normalize(t, s)) is None,
{
    let out = normalize(t, s);
    if spelling(t, out) is Some {
        lemma_spelling_shape(t, out);
        lemma_literal_prefix(t, s, spelled_len(t, out));
        lemma_normalize_head(t, s);
        lemma_spelling_is_local(t, out, s);
    }
}

/// What is left of a normal form after its first `j` tokens is the normal form
/// of what is left of the sequence after its first `k` tokens, for the `k`
/// that is returned.
proof fn lemma_normalize_suffix(t: TableView, s: Seq<Token>, j: int) -> (k: int)
    requires
        0 <= j <= normalize(t, s).len(),
    ensures
        0 <= k <= s.len(),
        normalize(t, s).skip(j) == normalize(t, s.skip(k)),
    decreases j,
{
    if j == 0 {
        assert(s.skip(0) =~= s);
        assert(normalize(t, s).skip(0) =~= normalize(t, s));
        0
    } else {
        let n: int = match spelling(t, s) {
            Some((op, n)) => n as int,
            None => 1,
        };
        if spelling(t, s) is Some {
            lemma_spelling_shape(t, s);
        }
        let rest = s.skip(n);
        assert(normalize(t, s).skip(1) =~= normalize(t, rest));
        let k = lemma_normalize_suffix(t, rest, j - 1);
        assert(normalize(t, s).skip(j) =~= normalize(t, rest).skip(j - 1));
        assert(rest.skip(k) =~= s.skip(n + k));
        n + k
    }
}

/// The normal form of any sequence holds no operator spelling, whatever the
/// table.
pub proof fn lemma_normalize_is_normal(t: TableView, s: Seq<Token>)
    ensures
        is_normal(t, normalize(t, s)),
{
    let out = normalize(t, s);
    assert forall|j: int| 0 <= j < out.len() implies spelling(t, #[trigger] out.skip(j))
        is None by {
        let k = lemma_normalize_suffix(t, s, j);
        lemma_normalize_starts_plain(t, s.skip(k));
    }
}

/// Normalizing is idempotent, whatever the table: the normal form of a normal
/// form is that normal form.
pub proof fn lemma_normalize_idempotent(t: TableView, s: Seq<Token>)
    ensures
        normalize(t, normalize(t, s)) == normalize(t, s),
{
    lemma_normalize_is_normal(t, s);
    lemma_normal_is_fixed(t, normalize(t, s));
}

/// What is left of a normal form after its first tokens is a normal form.
pub proof fn lemma_normal_suffix(t: TableView, s: Seq<Token>, k: int)
    requires
        is_normal(t, s),
        0 <= k <= s.len(),
    ensures
        is_normal(t, s.skip(k)),
{
    let rest = s.skip(k);
    assert forall|i: int| 0 <= i < rest.len() implies spelling(t, #[trigger] rest.skip(i))
        is None by {
        assert(rest.skip(i) =~= s.skip(k + i));
    }
}

/// After one token is put into a normal form of a compact table, normalizing
/// takes out at most two tokens, and no more than there are from the start up
/// to the new token.
pub proof fn lemma_insert_removes_few(t: TableView, s: Seq<Token>, i: int, tok: Token)
    requires
        is_compact(t),
        is_normal(t, s),
        0 <= i <= s.len(),
    ensures
        s.len() + 1 - normalize(t, s.insert(i, tok)).len() <= 2,
        s.len() + 1 - normalize(t, s.insert(i, tok)).len() <= i + 1,
        normalize(t, s.insert(i, tok)).len() <= s.len() + 1,
    decreases i,
{
    let u = s.insert(i, tok);
    lemma_normalize_len(t, u);
    assert(s.skip(0) =~= s);
    if spelling(t, u) is Some {
        let n = spelled_len(t, u) as int;
        lemma_spelling_shape(t, u);
        lemma_spelling_overlap(t, u);
        if i >= n {
            assert forall|j: int| 0 <= j < n implies s[j] == u[j] by {}
            lemma_spelling_is_local(t, u, s);
        } else {
            assert(u.skip(n) =~= s.skip(n - 1));
            lemma_normal_suffix(t, s, n - 1);
            lemma_normal_is_fixed(t, s.skip(n - 1));
            if n == 3 && i == 0 {
                assert(u.skip(1) =~= s);
            }
        }
    } else if i == 0 {
        assert(u.skip(1) =~= s);
        lemma_normal_is_fixed(t, s);
    } else {
        assert(u.skip(1) =~= s.skip(1).insert(i - 1, tok));
        lemma_normal_suffix(t, s, 1);
        lemma_insert_removes_few(t, s.skip(1), i - 1, tok);
    }
}

/// Reading a text leaves nothing to normalize, whatever the table: the tokens
/// that any text is read as are their own normal form.
pub proof fn lemma_parse_is_normal(t: TableView, text: Seq<char>)
    ensures
        is_normal(t, parse(t, text)),
        normalize(t, parse(t, text)) == parse(t, text),
{
    lemma_normalize_is_normal(t, literals(text));
    lemma_normalize_idempotent(t, literals(text));
}

/// An ordered sequence of tokens, written out from left to right.
#[derive(Clone, Debug, PartialEq, Eq)]
pub struct Tokens {
    inner: Vec<Token>,
}

impl View for Tokens {
    type V = Seq<Token>;

    closed spec fn view(&self) -> Seq<Token> {
        self.inner@
    }
}

impl Tokens {
    /// The empty sequence.
    pub fn new() -> (r: Tokens)
        ensures
            r@ == Seq::<Token>::empty(),
    {
        Tokens::from_vec(Vec::new())
    }

    /// The sequence of the tokens of `v`, as they stand.
    pub fn from_vec(v: Vec<Token>) -> (r: Tokens)
        ensures
            r@ == v@,
    {
        Tokens { inner: v }
    }

    /// A sequence that is held in memory has a length that fits a `usize`.
    pub proof fn lemma_len_fits(&self)
        ensures
            self@.len() <= usize::MAX,
    {
        assert(self.inner@.len() == self.inner.len());
    }

    /// The number of tokens.
    pub fn len(&self) -> (n: usize)
        ensures
            n == self@.len(),
    {
        self.inner.len()
    }

    /// Whether there is no token.
    pub fn is_empty(&self) -> (b: bool)
        ensures
            b == (self@.len() == 0),
    {
        self.inner.len() == 0
    }

    /// The token at index `i`.
    pub fn get(&self, i: usize) -> (t: Token)
        requires
            i < self@.len(),
        ensures
            t == self@[i as int],
    {
        self.inner[i]
    }

    /// Adds `t` at the end.
    pub fn push(&mut self, t: Token)
        ensures
            final(self)@ == old(self)@.push(t),
    {
        self.inner.push(t);
    }

    /// Puts `t` at index `i`, moving what stood there and after it one place
    /// to the right.
    pub fn insert(&mut self, i: usize, t: Token)
        requires
            i <= old(self)@.len(),
        ensures
            final(self)@ == old(self)@.insert(i as int, t),
    {
        self.inner.insert(i, t);
    }

    /// Takes out the token at index `i` and returns it.
    pub fn remove(&mut self, i: usize) -> (t: Token)
        requires
            i < old(self)@.len(),
        ensures
            t == old(self)@[i as int],
            final(self)@ == old(self)@.remove(i as int),
    {
        self.inner.remove(i)
    }

    /// Appends to `out` what the tokens from index `from` up to `to` are
    /// written as in `style` by `table`.
    pub fn write_range(
        &self,
        out: &mut String,
        from: usize,
        to: usize,
        table: &Table,
        style: Style,
    )
        requires
            from <= to <= self@.len(),
        ensures
            final(out)@ == old(out)@ + glyphs(
                table@,
                self@.subrange(from as int, to as int),
                style,
            ),
    {
        let mut i: usize = from;
        proof {
            assert(self@.subrange(from as int, from as int) =~= Seq::<Token>::empty());
            assert(out@ + glyphs(table@, Seq::<Token>::empty(), style) =~= out@);
        }
        while i < to
            invariant
                from <= i <= to <= self.inner@.len(),
                out@ == old(out)@ + glyphs(
                    table@,
                    self.inner@.subrange(from as int, i as int),
                    style,
                ),
            decreases to - i,
        {
            proof {
                let next = self.inner@.subrange(from as int, i + 1);
                assert(next.drop_last() =~= self.inner@.subrange(from as int, i as int));
                assert(next.last() == self.inner@[i as int]);
                assert((old(out)@ + glyphs(table@, next.drop_last(), style)) + glyph(
                    table@,
                    next.last(),
                    style,
                ) =~= old(out)@ + glyphs(table@, next, style));
            }
            let t = self.inner[i];
            t.write(out, table, style);
            i += 1;
        }
    }

    /// What the sequence is written as in `style` by `table`.
    pub fn render_with(&self, table: &Table, style: Style) -> (r: String)
        ensures
            r@ == glyphs(table@, self@, style),
    {
        let mut r = String::new();
        self.write_range(&mut r, 0, self.inner.len(), table, style);
        proof {
            assert(self@.subrange(0, self@.len() as int) =~= self@);
            assert(Seq::<char>::empty() + glyphs(table@, self@, style) =~= glyphs(
                table@,
                self@,
                style,
            ));
        }
        r
    }

    /// What the sequence is written as in `style` by the canonical table.
    pub fn render(&self, style: Style) -> (r: String)
        ensures
            r@ == glyphs(crate::consts::canonical(), self@, style),
    {
        self.render_with(&Table::canonical(), style)
    }

    /// Reads `s` as tokens under `table`: each spelling of an operator
    /// becomes that operator, every other character a literal.
    pub fn from_str_with(s: &str, table: &Table) -> (r: Tokens)
        ensures
            r@ == parse(table@, s@),
            is_normal(table@, r@),
    {
        let chars = chars_of(s);
        let mut v: Vec<Token> = Vec::with_capacity(chars.len());
        let mut i: usize = 0;
        while i < chars.len()
            invariant
                i <= chars.len(),
                v@ == literals(chars@.take(i as int)),
            decreases chars.len() - i,
        {
            assert(chars@.take(i + 1).drop_last() =~= chars@.take(i as int));
            v.push(Token::literal(chars[i]));
            i += 1;
        }
        assert(chars@.take(i as int) =~= s@);
        let mut r = Tokens::from_vec(v);
        r.simplify_with(table);
        r
    }

    /// Reads `s` as tokens under the canonical table.
    pub fn from_str(s: &str) -> (r: Tokens)
        ensures
            r@ == parse(crate::consts::canonical(), s@),
            is_normal(crate::consts::canonical(), r@),
    {
        Tokens::from_str_with(s, &Table::canonical())
    }

    /// Brings the sequence into its normal form under `table` and returns the
    /// number of tokens by which that shortened it.
    pub fn simplify_with(&mut self, table: &Table) -> (removed: usize)
        ensures
            final(self)@ == normalize(table@, old(self)@),
            is_normal(table@, final(self)@),
            removed == old(self)@.len() - final(self)@.len(),
    {
        let len = self.inner.len();
        let mut res: Vec<Token> = Vec::with_capacity(len);
        let mut i: usize = 0;
        proof {
            assert(self.inner@.skip(0) =~= self.inner@);
            assert(res@ + normalize(table@, self.inner@) =~= normalize(table@, self.inner@));
        }
        while i < len
            invariant
                len == self.inner@.len(),
                i <= len,
                res@.len() <= i,
                res@ + normalize(table@, self.inner@.skip(i as int)) == normalize(
                    table@,
                    self.inner@,
                ),
            decreases len - i,
        {
            let ghost rest = self.inner@.skip(i as int);
            proof {
                if spelling(table@, rest) is Some {
                    lemma_spelling_shape(table@, rest);
                }
            }
            match table.spelled_at(&self.inner, i) {
                Some((op, n)) => {
                    assert(rest.skip(n as int) =~= self.inner@.skip(i + n));
                    assert(res@.push(op) + normalize(table@, rest.skip(n as int)) =~= res@ + (
                    seq![op] + normalize(table@, rest.skip(n as int))));
                    res.push(op);
                    i += n;
                },
                None => {
                    assert(rest.skip(1) =~= self.inner@.skip(i + 1));
                    assert(rest[0] == self.inner@[i as int]);
                    assert(res@.push(rest[0]) + normalize(table@, rest.skip(1)) =~= res@ + (
                    seq![rest[0]] + normalize(table@, rest.skip(1))));
                    res.push(self.inner[i]);
                    i += 1;
                },
            }
        }
        proof {
            assert(self.inner@.skip(len as int) =~= Seq::<Token>::empty());
            assert(res@ =~= normalize(table@, self.inner@));
            lemma_normalize_is_normal(table@, self.inner@);
        }
        self.inner = res;
        len - self.inner.len()
    }

    /// Brings the sequence into its normal form under the canonical table and
    /// returns the number of tokens by which that shortened it.
    pub fn simplify(&mut self) -> (removed: usize)
        ensures
            final(self)@ == normalize(crate::consts::canonical(), old(self)@),
            is_normal(crate::consts::canonical(), final(self)@),
            removed == old(self)@.len() - final(self)@.len(),
    {
        self.simplify_with(&Table::canonical())
    }
}

} // verus!
