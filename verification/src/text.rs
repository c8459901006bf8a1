//! Text as sequences of characters: reading a string's characters and
//! writing characters, numbers and padding to a string.

use vstd::prelude::*;
use vstd::string::{StrSliceExecFns, StringExecFns};

verus! {

/// The characters of `s`, in order.
pub fn chars_of(s: &str) -> (v: Vec<char>)
    ensures
        v@ == s@,
{
    broadcast use vstd::string::group_string_axioms;

    let mut v: Vec<char> = Vec::new();
    for c in it: s.chars()
        invariant
            it.seq() == s@,
            v@.len() == it.index(),
            forall|j: int| 0 <= j < v@.len() ==> v@[j] == s@[j],
    {
        assert(c == it.seq()[it.index()]);
        v.push(c);
    }
    assert(v@ =~= s@);
    v
}

/// Appends the character `c` to `s`.
///
/// Calls `String::push`, which appends the given character to the end of the
/// string; the contract says that the string's characters are then the old
/// ones followed by `c`.
#[verifier::external_body]
pub(crate) fn push_char(s: &mut String, c: char)
    ensures
        final(s)@ == old(s)@.push(c),
{
    s.push(c)
}

/// The decimal digit of `d`, for `d` below ten.
pub open spec fn digit(d: int) -> char {
    if d == 0 {
        '0'
    } else if d == 1 {
        '1'
    } else if d == 2 {
        '2'
    } else if d == 3 {
        '3'
    } else if d == 4 {
        '4'
    } else if d == 5 {
        '5'
    } else if d == 6 {
        '6'
    } else if d == 7 {
        '7'
    } else if d == 8 {
        '8'
    } else {
        '9'
    }
}

/// The digits of `n` in base ten, without leading zeros.
pub open spec fn decimal(n: nat) -> Seq<char>
    decreases n,
{
    if n < 10 {
        seq![digit(n as int)]
    } else {
        decimal(n / 10).push(digit((n % 10) as int))
    }
}

/// `n` blanks.
pub open spec fn spaces(n: nat) -> Seq<char> {
    Seq::new(n, |i: int| ' ')
}

/// `t` with blanks before it that fill it up to `width` characters; `t`
/// itself where it is that long already.
pub open spec fn right_aligned(t: Seq<char>, width: nat) -> Seq<char> {
    if t.len() >= width {
        t
    } else {
        spaces((width - t.len()) as nat) + t
    }
}

/// `t` with blanks after it that fill it up to `width` characters; `t` itself
/// where it is that long already.
pub open spec fn left_aligned(t: Seq<char>, width: nat) -> Seq<char> {
    if t.len() >= width {
        t
    } else {
        t + spaces((width - t.len()) as nat)
    }
}

/// Computes [`digit`].
pub fn digit_char(d: u8) -> (c: char)
    requires
        d < 10,
    ensures
        c == digit(d as int),
{
    if d == 0 {
        '0'
    } else if d == 1 {
        '1'
    } else if d == 2 {
        '2'
    } else if d == 3 {
        '3'
    } else if d == 4 {
        '4'
    } else if d == 5 {
        '5'
    } else if d == 6 {
        '6'
    } else if d == 7 {
        '7'
    } else if d == 8 {
        '8'
    } else {
        '9'
    }
}

/// Appends the decimal digits of `n` to `out`.
pub fn push_decimal(out: &mut String, n: u128)
    ensures
        final(out)@ == old(out)@ + decimal(n as nat),
    decreases n,
{
    if n < 10 {
        assert(old(out)@.push(digit(n as int)) =~= old(out)@ + decimal(n as nat));
        push_char(out, digit_char(n as u8));
    } else {
        push_decimal(out, n / 10);
        push_char(out, digit_char((n % 10) as u8));
        assert(out@ =~= old(out)@ + decimal(n as nat));
    }
}

/// Appends `n` blanks to `out`.
pub fn push_spaces(out: &mut String, n: usize)
    ensures
        final(out)@ == old(out)@ + spaces(n as nat),
{
    let mut i: usize = 0;
    assert(out@ + spaces(0) =~= out@);
    while i < n
        invariant
            i <= n,
            out@ == old(out)@ + spaces(i as nat),
        decreases n - i,
    {
        assert((old(out)@ + spaces(i as nat)).push(' ') =~= old(out)@ + spaces((i + 1) as nat));
        push_char(out, ' ');
        i += 1;
    }
}

/// Appends `cell` to `out`, after the blanks that fill it up to `width`
/// characters.
pub fn push_right_aligned(out: &mut String, cell: &str, width: usize)
    ensures
        final(out)@ == old(out)@ + right_aligned(cell@, width as nat),
{
    let n = cell.unicode_len();
    if n < width {
        push_spaces(out, width - n);
    }
    out.append(cell);
    assert(out@ =~= old(out)@ + right_aligned(cell@, width as nat));
}

/// Appends `cell` to `out`, and after it the blanks that fill it up to `width`
/// characters.
pub fn push_left_aligned(out: &mut String, cell: &str, width: usize)
    ensures
        final(out)@ == old(out)@ + left_aligned(cell@, width as nat),
{
    let n = cell.unicode_len();
    out.append(cell);
    if n < width {
        push_spaces(out, width - n);
    }
    assert(out@ =~= old(out)@ + left_aligned(cell@, width as nat));
}

} // verus!
