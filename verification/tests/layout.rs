use proplogic::consts::{Style, Table};
use proplogic::cursor::{Col, Cursor};
use proplogic::editor::{Action, Editor};
use proplogic::line::Line;
use proplogic::lines::Lines;
use proplogic::text::{chars_of, digit_char, push_decimal, push_left_aligned, push_right_aligned, push_spaces};
use proplogic::tok::Tokens;

fn premise() -> Line {
    Line::full(0, Tokens::from_str("P"), Tokens::from_str("Premise"), vec![0])
}

fn derived() -> Line {
    Line::full(1, Tokens::from_str("¬¬P"), Tokens::from_str("¬I 1"), vec![0, 11, 122])
}

#[test]
fn line_without_marker() {
    assert_eq!(premise().format(Style::Ascii), "  1. P                    Premise         {1}");
    assert_eq!(
        derived().format(Style::Ascii),
        "  2. !!P                  !I 1            {1, 12, 123}"
    );
    assert_eq!(
        derived().format(Style::Pretty),
        "  2. ¬¬P                  ¬I 1            {1, 12, 123}"
    );
    assert_eq!(Line::new(99).format(Style::Ascii), format!("100. {:20} {:15} {{}}", "", ""));
    assert_eq!(Line::new(12344).format(Style::Ascii), format!("12345. {:20} {:15} {{}}", "", ""));
}

#[test]
fn line_matches_the_standard_formatter() {
    let l = Line::full(41, Tokens::from_str("(P<->Q)->R"), Tokens::from_str("→E 3, 4"), vec![2, 3]);
    assert_eq!(
        l.format(Style::Pretty),
        format!("{: >3}. {: <20} {: <15} {{{}}}", 42, "(P⇔Q)→R", "→E 3, 4", "3, 4")
    );
    assert_eq!(
        l.fmt_cursor(Style::Ascii, &Cursor::at(41, Col::Step, 4)),
        format!("{: >3}. {: <20} {: <15} {{{}}}", 42, "(P<->Q|)->R", "->E 3, 4", "3, 4")
    );
}

#[test]
fn long_columns_are_not_cut() {
    let l = Line::full(
        0,
        Tokens::from_str("ABCDEFGHIJKLMNOPQRSTUVWXYZ"),
        Tokens::from_str("abcdefghijklmnopqrstu"),
        vec![],
    );
    assert_eq!(l.format(Style::Ascii), "  1. ABCDEFGHIJKLMNOPQRSTUVWXYZ abcdefghijklmnopqrstu {}");
}

#[test]
fn marker_stands_at_the_cursor() {
    let l = premise();
    assert_eq!(
        l.fmt_cursor(Style::Ascii, &Cursor::at(0, Col::Step, 0)),
        "  1. |P                   Premise         {1}"
    );
    assert_eq!(
        l.fmt_cursor(Style::Ascii, &Cursor::at(0, Col::Step, 1)),
        "  1. P|                   Premise         {1}"
    );
    assert_eq!(
        l.fmt_cursor(Style::Ascii, &Cursor::at(0, Col::Method, 3)),
        "  1. P                    Pre|mise        {1}"
    );
    assert_eq!(
        l.fmt_cursor(Style::Ascii, &Cursor::at(0, Col::Method, 7)),
        "  1. P                    Premise|        {1}"
    );
}

#[test]
fn marker_of_a_cursor_elsewhere_is_not_shown() {
    let l = premise();
    let plain = l.format(Style::Ascii);
    assert_eq!(l.fmt_cursor(Style::Ascii, &Cursor::at(1, Col::Step, 0)), plain);
    assert_eq!(l.fmt_cursor(Style::Ascii, &Cursor::at(0, Col::Step, 2)), plain);
    assert_eq!(l.fmt_cursor(Style::Ascii, &Cursor::at(0, Col::Method, 8)), plain);
}

#[test]
fn marker_goes_by_the_number_of_the_line() {
    let l = Line::with_step(4, Tokens::from_str("P"));
    assert_eq!(
        l.fmt_cursor(Style::Pretty, &Cursor::at(4, Col::Method, 0)),
        format!("  5. {:20} {:15} {{}}", "P", "|")
    );
}

#[test]
fn buffer_is_one_line_of_text_per_line() {
    let lines = Lines::from_vec(vec![premise(), derived()]);
    assert_eq!(
        lines.format(Style::Ascii),
        "  1. P                    Premise         {1}\n  2. !!P                  !I 1            {1, 12, 123}\n"
    );
    assert_eq!(
        lines.fmt_cursor(Style::Pretty, &Cursor::at(1, Col::Step, 2)),
        "  1. P                    Premise         {1}\n  2. ¬¬|P                 ¬I 1            {1, 12, 123}\n"
    );
    assert_eq!(Lines::from_vec(vec![]).format(Style::Ascii), "");
}

#[test]
fn editor_shows_its_cursor() {
    let mut e = Editor::new();
    assert_eq!(
        e.format(Style::Pretty),
        "  1. |P                   Premise         {1}\n  2. ¬¬P                  ¬I 1            {1}\n"
    );
    e.handle_input(Action::MoveRight);
    e.handle_input(Action::MoveRight);
    assert_eq!(
        e.format(Style::Ascii),
        "  1. P                    |Premise        {1}\n  2. !!P                  !I 1            {1}\n"
    );
}

#[test]
fn highest_dependency_is_written_one_higher() {
    let l = Line::full(usize::MAX, Tokens::new(), Tokens::new(), vec![usize::MAX]);
    let n = (usize::MAX as u128 + 1).to_string();
    assert_eq!(l.format(Style::Ascii), format!("{}. {:20} {:15} {{{}}}", n, "", "", n));
}

#[test]
fn text_helpers() {
    assert_eq!(chars_of("a→b"), vec!['a', '→', 'b']);
    assert_eq!(chars_of(""), Vec::<char>::new());
    assert_eq!(digit_char(0), '0');
    assert_eq!(digit_char(7), '7');
    assert_eq!(digit_char(9), '9');
    let mut s = String::from("n=");
    push_decimal(&mut s, 0);
    push_decimal(&mut s, 9);
    push_decimal(&mut s, 10);
    push_decimal(&mut s, 1234567890);
    push_decimal(&mut s, u128::MAX);
    assert_eq!(s, format!("n=09101234567890{}", u128::MAX));
    let mut s = String::from("[");
    push_spaces(&mut s, 3);
    push_spaces(&mut s, 0);
    s.push(']');
    assert_eq!(s, "[   ]");
    let mut s = String::new();
    push_right_aligned(&mut s, "¬P", 4);
    push_right_aligned(&mut s, "abcde", 4);
    push_left_aligned(&mut s, "∧", 3);
    push_left_aligned(&mut s, "xyz", 3);
    push_left_aligned(&mut s, "", 2);
    assert_eq!(s, "  ¬Pabcde∧  xyz  ");
}

#[test]
fn line_is_written_by_the_table_given() {
    let mut t = Table::canonical();
    t.pretty.not = "NOT ".to_string();
    let l = derived();
    assert_eq!(
        l.format_with(&t, Style::Pretty),
        "  2. NOT NOT P            NOT I 1         {1, 12, 123}"
    );
    assert_eq!(
        l.fmt_cursor_with(&t, Style::Pretty, &Cursor::at(1, Col::Step, 1)),
        "  2. NOT |NOT P           NOT I 1         {1, 12, 123}"
    );
    assert_eq!(l.format_with(&t, Style::Ascii), l.format(Style::Ascii));
}
