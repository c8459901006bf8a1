use proplogic::consts::{Glyphs, Op, Spelling, Style, Table};
use proplogic::cursor::{Col, Cursor, EditError};
use proplogic::editor::{may_type, Action, Editor, Outcome};
use proplogic::line::Line;
use proplogic::lines::Lines;
use proplogic::tok::{Token, Tokens};

fn numbers(lines: &Lines) -> Vec<usize> {
    (0..lines.len()).map(|i| lines.get(i).no).collect()
}

fn steps(lines: &Lines) -> Vec<String> {
    (0..lines.len()).map(|i| lines.get(i).step.render(Style::Ascii)).collect()
}

fn place(c: &Cursor) -> (usize, Col, usize) {
    (c.line(), c.column(), c.offset())
}

fn three() -> Lines {
    Lines::from_vec(vec![
        Line::full(0, Tokens::from_str("P"), Tokens::from_str("Premise"), vec![]),
        Line::new(1),
        Line::with_step(2, Tokens::from_str("Q->P")),
    ])
}

#[test]
fn new_buffer_has_one_empty_line() {
    let lines = Lines::new();
    assert_eq!(lines.len(), 1);
    assert!(lines.get(0).is_empty());
    assert_eq!(lines.get(0).no, 0);
    assert_eq!(place(&Cursor::new()), (0, Col::Step, 0));
}

#[test]
fn insert_line_renumbers() {
    let mut lines = three();
    lines.insert_line(Line::with_step(1, Tokens::from_str("X")));
    assert_eq!(numbers(&lines), vec![0, 1, 2, 3]);
    assert_eq!(steps(&lines), vec!["P", "X", "", "Q->P"]);
    lines.insert_line(Line::with_step(4, Tokens::from_str("Z")));
    assert_eq!(numbers(&lines), vec![0, 1, 2, 3, 4]);
    assert_eq!(steps(&lines), vec!["P", "X", "", "Q->P", "Z"]);
    lines.insert_line(Line::with_step(0, Tokens::from_str("A")));
    assert_eq!(numbers(&lines), vec![0, 1, 2, 3, 4, 5]);
    assert_eq!(steps(&lines), vec!["A", "P", "X", "", "Q->P", "Z"]);
}

#[test]
fn delete_line_renumbers() {
    let mut lines = three();
    lines.delete_line(0);
    assert_eq!(numbers(&lines), vec![0, 1]);
    assert_eq!(steps(&lines), vec!["", "Q->P"]);
    lines.delete_line(1);
    assert_eq!(numbers(&lines), vec![0]);
    assert_eq!(steps(&lines), vec![""]);
}

#[test]
fn delete_line_leaves_lower_numbers_alone() {
    let mut lines = Lines::from_vec(vec![Line::new(7), Line::new(3), Line::new(1), Line::new(2)]);
    lines.delete_line(1);
    assert_eq!(numbers(&lines), vec![6, 1, 1]);
}

#[test]
fn right_walks_through_columns_and_lines() {
    let lines = three();
    let mut c = Cursor::new();
    let mut seen = vec![place(&c)];
    while c.right(&lines).is_ok() {
        seen.push(place(&c));
    }
    let mut expected = vec![(0, Col::Step, 0), (0, Col::Step, 1)];
    expected.extend((0..=7).map(|i| (0, Col::Method, i)));
    expected.push((1, Col::Step, 0));
    expected.push((1, Col::Method, 0));
    expected.extend((0..=3).map(|i| (2, Col::Step, i)));
    expected.push((2, Col::Method, 0));
    assert_eq!(seen, expected);
}

#[test]
fn right_at_end_of_text_fails_and_changes_nothing() {
    let lines = three();
    let mut c = Cursor::at(2, Col::Method, 0);
    assert_eq!(c.right(&lines), Err(EditError::EndOfText));
    assert_eq!(place(&c), (2, Col::Method, 0));
    assert_eq!(c, Cursor::at(2, Col::Method, 0));
}

#[test]
fn left_walks_back_the_way_right_came() {
    let lines = three();
    let mut c = Cursor::new();
    let mut forth = vec![place(&c)];
    while c.right(&lines).is_ok() {
        forth.push(place(&c));
    }
    let mut back = vec![place(&c)];
    while c.left(&lines).is_ok() {
        back.push(place(&c));
    }
    back.reverse();
    assert_eq!(back, forth);
}

#[test]
fn left_at_start_of_text_fails_and_changes_nothing() {
    let lines = three();
    let mut c = Cursor::new();
    assert_eq!(c.left(&lines), Err(EditError::StartOfText));
    assert_eq!(place(&c), (0, Col::Step, 0));
}

#[test]
fn is_eot_tells_the_end_of_a_column() {
    let lines = three();
    assert!(!Cursor::at(0, Col::Step, 0).is_eot(&lines));
    assert!(Cursor::at(0, Col::Step, 1).is_eot(&lines));
    assert!(Cursor::at(0, Col::Method, 7).is_eot(&lines));
    assert!(Cursor::at(1, Col::Method, 0).is_eot(&lines));
}

#[test]
fn newline_only_at_the_end_of_a_column() {
    let mut lines = three();
    let mut c = Cursor::at(2, Col::Step, 1);
    assert_eq!(c.newline(&mut lines), Err(EditError::NotAtBoundary));
    assert_eq!(place(&c), (2, Col::Step, 1));
    assert_eq!(lines.len(), 3);

    let mut c = Cursor::at(0, Col::Method, 7);
    assert_eq!(c.newline(&mut lines), Ok(()));
    assert_eq!(place(&c), (1, Col::Step, 0));
    assert_eq!(numbers(&lines), vec![0, 1, 2, 3]);
    assert_eq!(steps(&lines), vec!["P", "", "", "Q->P"]);
    assert!(lines.get(1).is_empty());
    assert!(lines.get(1).deps.is_empty());
}

#[test]
fn delete_takes_the_token_ahead() {
    let mut lines = three();
    let mut c = Cursor::at(2, Col::Step, 1);
    assert_eq!(c.delete(&mut lines), Ok(()));
    assert_eq!(place(&c), (2, Col::Step, 1));
    assert_eq!(lines.get(2).step, Tokens::from_vec(vec![Token::Char('Q'), Token::Char('P')]));
    assert_eq!(c.delete(&mut lines), Ok(()));
    assert_eq!(c.delete(&mut lines), Err(EditError::NothingToDelete));
    assert_eq!(place(&c), (2, Col::Step, 1));
    assert_eq!(steps(&lines), vec!["P", "", "Q"]);
}

#[test]
fn delete_in_method_of_empty_line_takes_the_line() {
    let mut lines = three();
    let mut c = Cursor::at(1, Col::Method, 0);
    assert_eq!(c.delete(&mut lines), Ok(()));
    assert_eq!(lines.len(), 2);
    assert_eq!(numbers(&lines), vec![0, 1]);
    assert_eq!(steps(&lines), vec!["P", "Q->P"]);
    assert_eq!(place(&c), (0, Col::Method, 0));
}

#[test]
fn delete_in_step_of_empty_line_finds_nothing() {
    let mut lines = three();
    let mut c = Cursor::at(1, Col::Step, 0);
    assert_eq!(c.delete(&mut lines), Err(EditError::NothingToDelete));
    assert_eq!(lines.len(), 3);
}

#[test]
fn the_only_line_is_never_deleted() {
    let mut lines = Lines::new();
    let mut c = Cursor::at(0, Col::Method, 0);
    assert_eq!(c.delete(&mut lines), Err(EditError::SingleLineGuard));
    assert_eq!(place(&c), (0, Col::Method, 0));
    let mut c = Cursor::new();
    assert_eq!(c.backspace(&mut lines), Err(EditError::SingleLineGuard));
    assert_eq!(place(&c), (0, Col::Step, 0));
    assert_eq!(lines.len(), 1);
}

#[test]
fn deleting_the_first_line_keeps_the_cursor_on_line_zero() {
    let mut lines = Lines::from_vec(vec![Line::new(0), Line::with_step(1, Tokens::from_str("P"))]);
    let mut c = Cursor::at(0, Col::Method, 0);
    assert_eq!(c.delete(&mut lines), Ok(()));
    assert_eq!(place(&c), (0, Col::Method, 0));
    assert_eq!(steps(&lines), vec!["P"]);
    assert_eq!(numbers(&lines), vec![0]);
}

#[test]
fn backspace_takes_the_token_behind() {
    let mut lines = three();
    let mut c = Cursor::at(2, Col::Step, 2);
    assert_eq!(c.backspace(&mut lines), Ok(()));
    assert_eq!(place(&c), (2, Col::Step, 1));
    assert_eq!(steps(&lines), vec!["P", "", "QP"]);
    assert_eq!(c.backspace(&mut lines), Ok(()));
    assert_eq!(place(&c), (2, Col::Step, 0));
    assert_eq!(c.backspace(&mut lines), Err(EditError::NothingToDelete));
    assert_eq!(steps(&lines), vec!["P", "", "P"]);
}

#[test]
fn backspace_in_empty_method_moves_left() {
    let mut lines = three();
    let mut c = Cursor::at(2, Col::Method, 0);
    assert_eq!(c.backspace(&mut lines), Ok(()));
    assert_eq!(place(&c), (2, Col::Step, 3));
    assert_eq!(steps(&lines), vec!["P", "", "Q->P"]);
}

#[test]
fn backspace_in_step_of_empty_line_takes_the_line() {
    let mut lines = three();
    let mut c = Cursor::at(1, Col::Step, 0);
    assert_eq!(c.backspace(&mut lines), Ok(()));
    assert_eq!(place(&c), (0, Col::Step, 0));
    assert_eq!(steps(&lines), vec!["P", "Q->P"]);
    assert_eq!(numbers(&lines), vec![0, 1]);
}

#[test]
fn typing_an_arrow_one_character_at_a_time() {
    let mut lines = Lines::new();
    let mut c = Cursor::new();
    assert_eq!(c.insert(&mut lines, Token::Char('-')), Ok(()));
    assert_eq!(place(&c), (0, Col::Step, 1));
    assert_eq!(lines.get(0).step, Tokens::from_vec(vec![Token::Char('-')]));
    assert_eq!(c.insert(&mut lines, Token::Char('>')), Ok(()));
    assert_eq!(lines.get(0).step.len(), 1);
    assert_eq!(lines.get(0).step, Tokens::from_vec(vec![Token::Implies]));
    assert_eq!(place(&c), (0, Col::Step, 1));
}

#[test]
fn typing_an_equivalence_one_character_at_a_time() {
    let mut lines = Lines::new();
    let mut c = Cursor::at(0, Col::Method, 0);
    for ch in "P<->Q".chars() {
        assert_eq!(c.insert(&mut lines, Token::Char(ch)), Ok(()));
    }
    assert_eq!(
        lines.get(0).method,
        Tokens::from_vec(vec![Token::Char('P'), Token::Iff, Token::Char('Q')])
    );
    assert_eq!(place(&c), (0, Col::Method, 3));
    assert!(lines.get(0).step.is_empty());
}

#[test]
fn typing_in_the_middle_of_a_spelling() {
    let mut lines = Lines::from_vec(vec![Line::with_step(
        0,
        Tokens::from_vec(vec![Token::Char('<'), Token::Char('>')]),
    )]);
    let mut c = Cursor::at(0, Col::Step, 1);
    assert_eq!(c.insert(&mut lines, Token::Char('-')), Ok(()));
    assert_eq!(lines.get(0).step, Tokens::from_vec(vec![Token::Iff]));
    assert_eq!(place(&c), (0, Col::Step, 0));
}

#[test]
fn typing_before_unsimplified_tokens_keeps_the_cursor_in_the_column() {
    let raw: Vec<Token> = "->->".chars().map(Token::Char).collect();
    let mut lines = Lines::from_vec(vec![Line::with_step(0, Tokens::from_vec(raw))]);
    let mut c = Cursor::new();
    assert_eq!(c.insert(&mut lines, Token::Char('a')), Ok(()));
    assert_eq!(
        lines.get(0).step,
        Tokens::from_vec(vec![Token::Char('a'), Token::Implies, Token::Implies])
    );
    assert_eq!(place(&c), (0, Col::Step, 0));
}

#[test]
fn insert_at_refuses_a_cursor_outside_the_buffer() {
    let mut lines = three();
    assert_eq!(lines.insert_at(&Cursor::at(3, Col::Step, 0), Token::Not), Err(()));
    assert_eq!(lines.insert_at(&Cursor::at(0, Col::Step, 2), Token::Not), Err(()));
    assert_eq!(steps(&lines), vec!["P", "", "Q->P"]);
    assert_eq!(lines.insert_at(&Cursor::at(2, Col::Step, 1), Token::Char('<')), Ok(0));
    assert_eq!(steps(&lines), vec!["P", "", "Q<->P"]);
    assert_eq!(lines.insert_at(&Cursor::at(0, Col::Method, 7), Token::Char('→')), Ok(0));
    assert_eq!(lines.get(0).method.render(Style::Ascii), "Premise->");
    assert_eq!(lines.insert_at(&Cursor::at(1, Col::Step, 0), Token::Char('>')), Ok(0));
    assert_eq!(lines.insert_at(&Cursor::at(1, Col::Step, 0), Token::Char('-')), Ok(1));
    assert_eq!(lines.get(1).step, Tokens::from_vec(vec![Token::Implies]));
}

#[test]
fn remove_token_takes_one_token() {
    let mut lines = three();
    assert_eq!(lines.remove_token(0, Col::Method, 0), Token::Char('P'));
    assert_eq!(lines.get(0).method.render(Style::Ascii), "remise");
    assert_eq!(lines.remove_token(2, Col::Step, 1), Token::Implies);
    assert_eq!(steps(&lines), vec!["P", "", "QP"]);
}

#[test]
fn simplify_reaches_every_line_and_column() {
    let raw = |s: &str| Tokens::from_vec(s.chars().map(Token::Char).collect());
    let mut lines = Lines::from_vec(vec![
        Line::full(0, raw("P->Q"), raw("<->"), vec![]),
        Line::full(1, raw("~P"), raw("x"), vec![0]),
    ]);
    lines.simplify();
    assert_eq!(lines.get(0).step, Tokens::from_str("P->Q"));
    assert_eq!(lines.get(0).step.len(), 3);
    assert_eq!(lines.get(0).method, Tokens::from_vec(vec![Token::Iff]));
    assert_eq!(lines.get(1).step, Tokens::from_vec(vec![Token::Not, Token::Char('P')]));
    assert_eq!(lines.get(1).method, raw("x"));
    let mut line = Line::full(5, raw("<→"), raw("-->"), vec![1]);
    line.simplify();
    assert_eq!(line.step, Tokens::from_vec(vec![Token::Iff]));
    assert_eq!(line.method, Tokens::from_vec(vec![Token::Char('-'), Token::Implies]));
    assert_eq!(line.no, 5);
    assert_eq!(line.deps, vec![1]);
}

#[test]
fn editor_starts_with_the_example() {
    let e = Editor::new();
    assert_eq!(e.lines().len(), 2);
    assert_eq!(place(e.cursor()), (0, Col::Step, 0));
    assert_eq!(e.lines().get(0).step, Tokens::from_vec(vec![Token::Char('P')]));
    assert_eq!(e.lines().get(0).method.render(Style::Ascii), "Premise");
    assert_eq!(e.lines().get(0).deps, vec![0]);
    assert_eq!(
        e.lines().get(1).step,
        Tokens::from_vec(vec![Token::Not, Token::Not, Token::Char('P')])
    );
    assert_eq!(
        e.lines().get(1).method,
        Tokens::from_vec(vec![Token::Not, Token::Char('I'), Token::Char(' '), Token::Char('1')])
    );
    assert_eq!(e.lines().get(1).deps, vec![0]);
    assert_eq!(numbers(e.lines()), vec![0, 1]);
}

#[test]
fn editor_dispatches_actions() {
    let mut e = Editor::new();
    assert_eq!(e.handle_input(Action::MoveLeft), Outcome::Refused(EditError::StartOfText));
    assert_eq!(e.handle_input(Action::MoveRight), Outcome::Done);
    assert_eq!(place(e.cursor()), (0, Col::Step, 1));
    assert_eq!(e.handle_input(Action::InsertCharacter('-')), Outcome::Done);
    assert_eq!(e.handle_input(Action::InsertCharacter('>')), Outcome::Done);
    assert_eq!(e.handle_input(Action::InsertCharacter('Q')), Outcome::Done);
    assert_eq!(e.lines().get(0).step.render(Style::Pretty), "P→Q");
    assert_eq!(place(e.cursor()), (0, Col::Step, 3));
    assert_eq!(e.handle_input(Action::DeleteBackward), Outcome::Done);
    assert_eq!(e.lines().get(0).step.render(Style::Pretty), "P→");
    assert_eq!(e.handle_input(Action::MoveLeft), Outcome::Done);
    assert_eq!(e.handle_input(Action::Split), Outcome::Refused(EditError::NotAtBoundary));
    assert_eq!(e.handle_input(Action::DeleteForward), Outcome::Done);
    assert_eq!(e.lines().get(0).step.render(Style::Pretty), "P");
    assert_eq!(e.handle_input(Action::DeleteForward), Outcome::Refused(EditError::NothingToDelete));
    assert_eq!(e.handle_input(Action::Split), Outcome::Done);
    assert_eq!(place(e.cursor()), (1, Col::Step, 0));
    assert_eq!(numbers(e.lines()), vec![0, 1, 2]);
    assert_eq!(steps(e.lines()), vec!["P", "", "!!P"]);
    assert_eq!(e.handle_input(Action::DeleteBackward), Outcome::Done);
    assert_eq!(numbers(e.lines()), vec![0, 1]);
    assert_eq!(place(e.cursor()), (0, Col::Step, 0));
}

#[test]
fn editor_leaves_other_characters_to_the_host() {
    let mut e = Editor::new();
    for c in ['1', '\n', '+', '|', '{', '\u{7f}'] {
        assert_eq!(e.handle_input(Action::InsertCharacter(c)), Outcome::Unhandled);
    }
    assert_eq!(steps(e.lines()), vec!["P", "!!P"]);
    assert_eq!(place(e.cursor()), (0, Col::Step, 0));
    for c in ['a', 'Z', 'é', 'π', ' ', '(', ')', '<', '⇔'] {
        assert_eq!(e.handle_input(Action::InsertCharacter(c)), Outcome::Done);
    }
    assert_eq!(e.lines().get(0).step.render(Style::Pretty), "aZéπ ()<⇔P");
}

#[test]
fn may_type_takes_letters_and_punctuation() {
    let t = Table::canonical();
    assert!(may_type(&t, '1', true));
    assert!(!may_type(&t, '1', false));
    assert!(may_type(&t, '(', false));
    assert!(may_type(&t, '→', false));
    assert!(!may_type(&t, '+', false));
}

fn plus_table() -> Table {
    let glyphs = |not: &str, and: &str, or: &str, implies: &str, iff: &str| Glyphs {
        not: not.to_string(),
        and: and.to_string(),
        or: or.to_string(),
        implies: implies.to_string(),
        iff: iff.to_string(),
    };
    Table {
        spellings: vec![
            Spelling { word: vec!['-'], op: Op::Not },
            Spelling { word: vec!['*'], op: Op::And },
            Spelling { word: vec!['+'], op: Op::Or },
            Spelling { word: vec!['=', '>'], op: Op::Implies },
            Spelling { word: vec!['=', '='], op: Op::Iff },
        ],
        ascii: glyphs("-", "*", "+", "=>", "=="),
        pretty: glyphs("¬", "∧", "∨", "→", "⇔"),
    }
}

#[test]
fn editor_goes_by_its_table() {
    let mut e = Editor::with_table(plus_table());
    assert!(e.is_well_formed());
    assert_eq!(
        e.lines().get(1).step,
        Tokens::from_vec(vec![Token::Char('¬'), Token::Char('¬'), Token::Char('P')])
    );
    assert_eq!(e.handle_input(Action::InsertCharacter('→')), Outcome::Unhandled);
    for c in "-Q+R=>".chars() {
        assert_eq!(e.handle_input(Action::InsertCharacter(c)), Outcome::Done);
    }
    assert_eq!(
        e.lines().get(0).step,
        Tokens::from_vec(vec![
            Token::Not,
            Token::Char('Q'),
            Token::Or,
            Token::Char('R'),
            Token::Implies,
            Token::Char('P'),
        ])
    );
    assert_eq!(place(e.cursor()), (0, Col::Step, 5));
    assert_eq!(
        e.format(Style::Ascii),
        "  1. -Q+R=>|P             Premise         {1}\n  2. ¬¬P                  ¬I 1            {1}\n"
    );
    assert_eq!(e.table().glyph(Op::Iff, Style::Ascii), "==");
}

#[test]
fn buffer_goes_by_its_table() {
    let raw = |s: &str| Tokens::from_vec(s.chars().map(Token::Char).collect());
    let mut lines = Lines::with_table(vec![Line::full(0, raw("P=>Q"), raw("->"), vec![])], plus_table());
    lines.simplify();
    assert_eq!(
        lines.get(0).step,
        Tokens::from_vec(vec![Token::Char('P'), Token::Implies, Token::Char('Q')])
    );
    assert_eq!(
        lines.get(0).method,
        Tokens::from_vec(vec![Token::Not, Token::Char('>')])
    );
    assert_eq!(lines.insert_at(&Cursor::at(0, Col::Step, 3), Token::Char('=')), Ok(0));
    assert_eq!(lines.insert_at(&Cursor::at(0, Col::Step, 4), Token::Char('=')), Ok(1));
    assert_eq!(lines.format(Style::Ascii), format!("  1. {:20} {:15} {{}}\n", "P=>Q==", "->"));
    assert_eq!(lines.table().spellings.len(), 5);
}
