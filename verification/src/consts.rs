//! The operator spelling table: which characters spell which operator when
//! text is read, and which glyphs an operator is written with.
//!
//! A [`Table`] is a value that the host may make up as it sees fit;
//! [`Table::canonical`] is the one that the library goes by where none is
//! given. Whatever a table holds, the library relies on no more than
//! [`lemma_spelling_shape`] and [`lemma_spelling_is_local`] say of it.

use crate::text::chars_of;
use crate::tok::Token;
use vstd::prelude::*;
use vstd::string::StringExecFns;

verus! {

/// The glyph set in which operators are written out.
#[derive(Copy, Clone, Debug, PartialEq, Eq, Structural)]
pub enum Style {
    /// Operators that can be typed on a plain keyboard.
    Ascii,
    /// The mathematical glyphs.
    Pretty,
}

/// The five logical operators, free of any spelling.
#[derive(Copy, Clone, Debug, PartialEq, Eq, Structural)]
pub enum Op {
    Not,
    And,
    Or,
    Implies,
    Iff,
}

impl Op {
    /// The token of the operator.
    pub open spec fn token(self) -> Token {
        match self {
            Op::Not => Token::Not,
            Op::And => Token::And,
            Op::Or => Token::Or,
            Op::Implies => Token::Implies,
            Op::Iff => Token::Iff,
        }
    }

    /// Computes [`Op::token`].
    pub fn to_token(self) -> (t: Token)
        ensures
            t == self.token(),
    {
        match self {
            Op::Not => Token::Not,
            Op::And => Token::And,
            Op::Or => Token::Or,
            Op::Implies => Token::Implies,
            Op::Iff => Token::Iff,
        }
    }
}

/// The operator that `t` is, if it is one.
pub open spec fn op_of(t: Token) -> Option<Op> {
    match t {
        Token::Char(_) => None,
        Token::Not => Some(Op::Not),
        Token::And => Some(Op::And),
        Token::Or => Some(Op::Or),
        Token::Implies => Some(Op::Implies),
        Token::Iff => Some(Op::Iff),
    }
}

/// Computes [`op_of`].
pub fn operator(t: Token) -> (r: Option<Op>)
    ensures
        r == op_of(t),
{
    match t {
        Token::Char(_) => None,
        Token::Not => Some(Op::Not),
        Token::And => Some(Op::And),
        Token::Or => Some(Op::Or),
        Token::Implies => Some(Op::Implies),
        Token::Iff => Some(Op::Iff),
    }
}

/// One way to spell an operator: the characters, and the operator that they
/// stand for. A spelling without characters spells nothing.
#[derive(Clone, Debug)]
pub struct Spelling {
    pub word: Vec<char>,
    pub op: Op,
}

/// What a spelling holds.
pub struct SpellingView {
    pub word: Seq<char>,
    pub op: Op,
}

impl View for Spelling {
    type V = SpellingView;

    open spec fn view(&self) -> SpellingView {
        SpellingView { word: self.word@, op: self.op }
    }
}

/// What each operator is written as.
#[derive(Clone, Debug)]
pub struct Glyphs {
    pub not: String,
    pub and: String,
    pub or: String,
    pub implies: String,
    pub iff: String,
}

/// What a glyph set holds.
pub struct GlyphsView {
    pub not: Seq<char>,
    pub and: Seq<char>,
    pub or: Seq<char>,
    pub implies: Seq<char>,
    pub iff: Seq<char>,
}

impl View for Glyphs {
    type V = GlyphsView;

    open spec fn view(&self) -> GlyphsView {
        GlyphsView {
            not: self.not@,
            and: self.and@,
            or: self.or@,
            implies: self.implies@,
            iff: self.iff@,
        }
    }
}

impl GlyphsView {
    /// What `op` is written as.
    pub open spec fn of(self, op: Op) -> Seq<char> {
        match op {
            Op::Not => self.not,
            Op::And => self.and,
            Op::Or => self.or,
            Op::Implies => self.implies,
            Op::Iff => self.iff,
        }
    }
}

impl Glyphs {
    /// What `op` is written as.
    pub fn of(&self, op: Op) -> (r: &str)
        ensures
            r@ == self@.of(op),
    {
        match op {
            Op::Not => self.not.as_str(),
            Op::And => self.and.as_str(),
            Op::Or => self.or.as_str(),
            Op::Implies => self.implies.as_str(),
            Op::Iff => self.iff.as_str(),
        }
    }
}

/// A spelling table: the spellings that are read as operators, in the order
/// in which they are tried, and the glyphs that operators are written with
/// in either style. Where one word starts with another, the longer one has to
/// come first to be read at all.
#[derive(Clone, Debug)]
pub struct Table {
    pub spellings: Vec<Spelling>,
    pub ascii: Glyphs,
    pub pretty: Glyphs,
}

/// What a table holds.
pub struct TableView {
    pub spellings: Seq<SpellingView>,
    pub ascii: GlyphsView,
    pub pretty: GlyphsView,
}

/// What each of the spellings holds.
pub open spec fn spelling_views(spellings: Seq<Spelling>) -> Seq<SpellingView> {
    Seq::new(spellings.len(), |i: int| spellings[i]@)
}

impl View for Table {
    type V = TableView;

    open spec fn view(&self) -> TableView {
        TableView {
            spellings: spelling_views(self.spellings@),
            ascii: self.ascii@,
            pretty: self.pretty@,
        }
    }
}

/// The literals of the word `w` stand at the head of `s`, and `w` is not
/// empty.
pub open spec fn spelled(s: Seq<Token>, w: Seq<char>) -> bool {
    &&& 0 < w.len() <= s.len()
    &&& forall|i: int| 0 <= i < w.len() ==> #[trigger] s[i] == Token::Char(w[i])
}

/// The first of the spellings from index `k` on whose word stands at the
/// head of `s`: its operator, and the length of its word.
pub open spec fn first_spelled(spellings: Seq<SpellingView>, s: Seq<Token>, k: int) -> Option<
    (Op, nat),
>
    decreases spellings.len() - k,
{
    if k < 0 || k >= spellings.len() {
        None
    } else if spelled(s, spellings[k].word) {
        Some((spellings[k].op, spellings[k].word.len()))
    } else {
        first_spelled(spellings, s, k + 1)
    }
}

/// The operator spelled by the literal tokens at the head of `s`, together
/// with the number of tokens that spell it: those of the first spelling of the
/// table that stands there. A token that is an operator already spells
/// nothing.
pub open spec fn spelling(t: TableView, s: Seq<Token>) -> Option<(Token, nat)> {
    match first_spelled(t.spellings, s, 0) {
        Some((op, n)) => Some((op.token(), n)),
        None => None,
    }
}

/// The number of tokens that spell an operator at the head of `s`; none where
/// no spelling stands there.
pub open spec fn spelled_len(t: TableView, s: Seq<Token>) -> nat {
    match spelling(t, s) {
        Some((_, n)) => n,
        None => 0,
    }
}

/// The characters with which `tok` is written in `style`: a literal as itself,
/// an operator with the glyph that the table gives it in that style.
pub open spec fn glyph(t: TableView, tok: Token, style: Style) -> Seq<char> {
    match tok {
        Token::Char(c) => seq![c],
        _ => match style {
            Style::Ascii => t.ascii.of(op_of(tok).unwrap()),
            Style::Pretty => t.pretty.of(op_of(tok).unwrap()),
        },
    }
}

/// The character `c` stands in one of the spellings.
pub open spec fn spells_with(spellings: Seq<SpellingView>, c: char) -> bool {
    exists|k: int| 0 <= k < spellings.len() && (#[trigger] spellings[k]).word.contains(c)
}

/// The punctuation that may be typed into a line besides letters: the blank,
/// the two parentheses, and the characters of the spellings.
pub open spec fn is_punctuation(t: TableView, c: char) -> bool {
    c == ' ' || c == '(' || c == ')' || spells_with(t.spellings, c)
}

/// Where a spelling is found from index `k` on, it is that of some entry
/// whose word stands at the head of `s`. The index of that entry is returned.
pub proof fn lemma_first_spelled_entry(spellings: Seq<SpellingView>, s: Seq<Token>, k: int) -> (m:
    int)
    requires
        0 <= k,
        first_spelled(spellings, s, k) is Some,
    ensures
        k <= m < spellings.len(),
        spelled(s, spellings[m].word),
        first_spelled(spellings, s, k) == Some((spellings[m].op, spellings[m].word.len())),
    decreases spellings.len() - k,
{
    if spelled(s, spellings[k].word) {
        k
    } else {
        lemma_first_spelled_entry(spellings, s, k + 1)
    }
}

/// Where the word of an entry from index `k` on stands at the head of `s`, a
/// spelling is found.
pub proof fn lemma_first_spelled_found(
    spellings: Seq<SpellingView>,
    s: Seq<Token>,
    k: int,
    m: int,
)
    requires
        0 <= k <= m < spellings.len(),
        spelled(s, spellings[m].word),
    ensures
        first_spelled(spellings, s, k) is Some,
    decreases m - k,
{
    if k < m && !spelled(s, spellings[k].word) {
        lemma_first_spelled_found(spellings, s, k + 1, m);
    }
}

/// A spelling is made of literals, as many as it says and at least one, and
/// stands for an operator.
pub proof fn lemma_spelling_shape(t: TableView, s: Seq<Token>)
    requires
        spelling(t, s) is Some,
    ensures
        spelling(t, s).unwrap().0 !is Char,
        1 <= spelled_len(t, s) <= s.len(),
        forall|i: int| 0 <= i < spelled_len(t, s) ==> s[i] is Char,
{
    let m = lemma_first_spelled_entry(t.spellings, s, 0);
}

/// Whether a spelling stands at the head of a sequence is decided by the
/// tokens of the spelling alone: where `u` starts with the tokens that spell
/// an operator at the head of `s`, a spelling stands at the head of `u` too.
pub proof fn lemma_spelling_is_local(t: TableView, s: Seq<Token>, u: Seq<Token>)
    requires
        spelling(t, s) is Some,
        spelled_len(t, s) <= u.len(),
        forall|i: int| 0 <= i < spelled_len(t, s) ==> u[i] == s[i],
    ensures
        spelling(t, u) is Some,
{
    let m = lemma_first_spelled_entry(t.spellings, s, 0);
    assert(spelled(u, t.spellings[m].word));
    lemma_first_spelled_found(t.spellings, u, 0, m);
}

/// The word `w` is one of the words of the spellings.
pub open spec fn has_word(spellings: Seq<SpellingView>, w: Seq<char>) -> bool {
    exists|m: int| 0 <= m < spellings.len() && (#[trigger] spellings[m]).word == w
}

/// No word of the table is longer than three characters, and what is left of
/// a word of three characters without its first is a word of the table too.
pub open spec fn is_compact(t: TableView) -> bool {
    forall|k: int|
        0 <= k < t.spellings.len() ==> {
            let w = (#[trigger] t.spellings[k]).word;
            w.len() <= 3 && (w.len() == 3 ==> has_word(t.spellings, w.skip(1)))
        }
}

/// In a compact table no spelling is longer than three tokens, and behind the
/// first token of one that is three tokens long a spelling stands again.
pub proof fn lemma_spelling_overlap(t: TableView, s: Seq<Token>)
    requires
        is_compact(t),
        spelling(t, s) is Some,
    ensures
        spelled_len(t, s) <= 3,
        spelled_len(t, s) == 3 ==> spelling(t, s.skip(1)) is Some,
{
    let k = lemma_first_spelled_entry(t.spellings, s, 0);
    let w = t.spellings[k].word;
    if w.len() == 3 {
        let m = choose|m: int|
            0 <= m < t.spellings.len() && (#[trigger] t.spellings[m]).word == w.skip(1);
        assert(has_word(t.spellings, w.skip(1)));
        let tail = t.spellings[m].word;
        assert forall|i: int| 0 <= i < tail.len() implies #[trigger] s.skip(1)[i] == Token::Char(
            tail[i],
        ) by {
            assert(s.skip(1)[i] == s[i + 1]);
            assert(tail[i] == w[i + 1]);
        }
        lemma_first_spelled_found(t.spellings, s.skip(1), 0, m);
    }
}

/// The spellings of the canonical table, in the order in which they are
/// tried.
pub open spec fn canonical_spellings() -> Seq<SpellingView> {
    seq![
        SpellingView { word: seq!['~'], op: Op::Not },
        SpellingView { word: seq!['!'], op: Op::Not },
        SpellingView { word: seq!['¬'], op: Op::Not },
        SpellingView { word: seq!['&'], op: Op::And },
        SpellingView { word: seq!['^'], op: Op::And },
        SpellingView { word: seq!['∧'], op: Op::And },
        SpellingView { word: seq!['v'], op: Op::Or },
        SpellingView { word: seq!['∨'], op: Op::Or },
        SpellingView { word: seq!['-', '>'], op: Op::Implies },
        SpellingView { word: seq!['→'], op: Op::Implies },
        SpellingView { word: seq!['<', '-', '>'], op: Op::Iff },
        SpellingView { word: seq!['<', '→'], op: Op::Iff },
        SpellingView { word: seq!['↔'], op: Op::Iff },
        SpellingView { word: seq!['⇔'], op: Op::Iff },
    ]
}

/// The canonical table: the table that the library goes by where it is given
/// no other.
pub open spec fn canonical() -> TableView {
    TableView {
        spellings: canonical_spellings(),
        ascii: GlyphsView {
            not: seq!['!'],
            and: seq!['^'],
            or: seq!['v'],
            implies: seq!['-', '>'],
            iff: seq!['<', '-', '>'],
        },
        pretty: GlyphsView {
            not: seq!['¬'],
            and: seq!['∧'],
            or: seq!['∨'],
            implies: seq!['→'],
            iff: seq!['⇔'],
        },
    }
}

/// The canonical table is compact.
pub proof fn lemma_canonical_is_compact()
    ensures
        is_compact(canonical()),
{
    let sp = canonical().spellings;
    assert(sp.len() == 14);
    assert(sp[8].word =~= sp[10].word.skip(1));
    assert(has_word(sp, sp[10].word.skip(1)));
}

/// Whether the word `w` stands at index `i` of `v`.
fn stands_at(v: &Vec<Token>, i: usize, w: &Vec<char>) -> (b: bool)
    requires
        i <= v.len(),
    ensures
        b == spelled(v@.skip(i as int), w@),
{
    let n = w.len();
    let ghost s = v@.skip(i as int);
    if n == 0 || n > v.len() - i {
        return false;
    }
    let mut j: usize = 0;
    while j < n
        invariant
            j <= n,
            n == w.len(),
            0 < n <= v.len() - i,
            s == v@.skip(i as int),
            forall|k: int| 0 <= k < j ==> #[trigger] s[k] == Token::Char(w@[k]),
        decreases n - j,
    {
        assert(s[j as int] == v@[i + j]);
        let same = match v[i + j] {
            Token::Char(c) => c == w[j],
            _ => false,
        };
        if !same {
            return false;
        }
        j += 1;
    }
    true
}

/// The spelling whose word is the text `word` and which stands for `op`.
fn spell(word: &str, op: Op) -> (r: Spelling)
    ensures
        r@ == (SpellingView { word: word@, op }),
{
    Spelling { word: chars_of(word), op }
}

impl Table {
    /// The canonical table.
    pub fn canonical() -> (t: Table)
        ensures
            t@ == canonical(),
    {
        let mut spellings: Vec<Spelling> = Vec::new();
        spellings.push(spell("~", Op::Not));
        spellings.push(spell("!", Op::Not));
        spellings.push(spell("¬", Op::Not));
        spellings.push(spell("&", Op::And));
        spellings.push(spell("^", Op::And));
        spellings.push(spell("∧", Op::And));
        spellings.push(spell("v", Op::Or));
        spellings.push(spell("∨", Op::Or));
        spellings.push(spell("->", Op::Implies));
        spellings.push(spell("→", Op::Implies));
        spellings.push(spell("<->", Op::Iff));
        spellings.push(spell("<→", Op::Iff));
        spellings.push(spell("↔", Op::Iff));
        spellings.push(spell("⇔", Op::Iff));
        let ascii = Glyphs {
            not: String::from_str("!"),
            and: String::from_str("^"),
            or: String::from_str("v"),
            implies: String::from_str("->"),
            iff: String::from_str("<->"),
        };
        let pretty = Glyphs {
            not: String::from_str("¬"),
            and: String::from_str("∧"),
            or: String::from_str("∨"),
            implies: String::from_str("→"),
            iff: String::from_str("⇔"),
        };
        proof {
            reveal_strlit("~");
            reveal_strlit("!");
            reveal_strlit("¬");
            reveal_strlit("&");
            reveal_strlit("^");
            reveal_strlit("∧");
            reveal_strlit("v");
            reveal_strlit("∨");
            reveal_strlit("->");
            reveal_strlit("→");
            reveal_strlit("<->");
            reveal_strlit("<→");
            reveal_strlit("↔");
            reveal_strlit("⇔");
            let made = spelling_views(spellings@);
            let wanted = canonical_spellings();
            assert(made.len() == wanted.len());
            assert forall|k: int| 0 <= k < made.len() implies made[k] == wanted[k] by {
                assert(made[k].word =~= wanted[k].word);
            }
            assert(made =~= wanted);
            assert(ascii@.not =~= canonical().ascii.not);
            assert(ascii@.and =~= canonical().ascii.and);
            assert(ascii@.or =~= canonical().ascii.or);
            assert(ascii@.implies =~= canonical().ascii.implies);
            assert(ascii@.iff =~= canonical().ascii.iff);
            assert(pretty@.not =~= canonical().pretty.not);
            assert(pretty@.and =~= canonical().pretty.and);
            assert(pretty@.or =~= canonical().pretty.or);
            assert(pretty@.implies =~= canonical().pretty.implies);
            assert(pretty@.iff =~= canonical().pretty.iff);
        }
        Table { spellings, ascii, pretty }
    }

    /// The operator spelled at index `i` of `v` and the number of tokens that
    /// spell it, if a spelling starts there.
    pub fn spelled_at(&self, v: &Vec<Token>, i: usize) -> (r: Option<(Token, usize)>)
        requires
            i <= v.len(),
        ensures
            spelling(self@, v@.skip(i as int)) matches Some((op, n)) ==> r == Some(
                (op, n as usize),
            ),
            spelling(self@, v@.skip(i as int)) is None ==> r is None,
    {
        let ghost s = v@.skip(i as int);
        let mut k: usize = 0;
        while k < self.spellings.len()
            invariant
                k <= self.spellings.len(),
                s == v@.skip(i as int),
                i <= v.len(),
                first_spelled(self@.spellings, s, 0) == first_spelled(self@.spellings, s, k as int),
            decreases self.spellings.len() - k,
        {
            assert(self@.spellings[k as int] == self.spellings@[k as int]@);
            if stands_at(v, i, &self.spellings[k].word) {
                return Some((self.spellings[k].op.to_token(), self.spellings[k].word.len()));
            }
            k += 1;
        }
        None
    }

    /// The glyph with which `op` is written in `style`.
    pub fn glyph(&self, op: Op, style: Style) -> (r: &str)
        ensures
            r@ == glyph(self@, op.token(), style),
    {
        match style {
            Style::Ascii => self.ascii.of(op),
            Style::Pretty => self.pretty.of(op),
        }
    }

    /// Whether `c` is punctuation that may be typed into a line.
    pub fn punctuation(&self, c: char) -> (b: bool)
        ensures
            b == is_punctuation(self@, c),
    {
        if c == ' ' || c == '(' || c == ')' {
            return true;
        }
        let mut k: usize = 0;
        while k < self.spellings.len()
            invariant
                k <= self.spellings.len(),
                forall|m: int| 0 <= m < k ==> !(#[trigger] self@.spellings[m]).word.contains(c),
            decreases self.spellings.len() - k,
        {
            assert(self@.spellings[k as int] == self.spellings@[k as int]@);
            let w = &self.spellings[k].word;
            let mut j: usize = 0;
            while j < w.len()
                invariant
                    j <= w.len(),
                    k < self.spellings.len(),
                    w@ == self@.spellings[k as int].word,
                    forall|m: int| 0 <= m < j ==> w@[m] != c,
                decreases w.len() - j,
            {
                if w[j] == c {
                    assert(w@.contains(c));
                    return true;
                }
                j += 1;
            }
            k += 1;
        }
        false
    }
}

} // verus!
