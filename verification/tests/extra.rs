use proplogic::consts::{Style, Table};
use proplogic::cursor::{Col, Cursor};
use proplogic::editor::{Action, Editor};
use proplogic::line::Line;
use proplogic::lines::Lines;
use proplogic::tok::Tokens;

#[test]
fn parts_of_a_line() {
    let l = Line::full(6, Tokens::from_str("P->Q"), Tokens::from_str("->I"), vec![4, 5]);
    assert_eq!(l.number_text(), "7");
    assert_eq!(l.deps_text(), "5, 6");
    assert_eq!(Line::new(0).deps_text(), "");
    let t = Table::canonical();
    assert_eq!(l.column_text(Col::Step, &t, Style::Ascii, &Cursor::at(6, Col::Step, 2)), "P->|Q");
    assert_eq!(l.column_text(Col::Step, &t, Style::Ascii, &Cursor::at(6, Col::Method, 2)), "P->Q");
    assert_eq!(l.column_text(Col::Method, &t, Style::Pretty, &Cursor::at(6, Col::Method, 2)), "→I|");
    assert_eq!(l.column_text(Col::Method, &t, Style::Pretty, &Cursor::at(5, Col::Method, 2)), "→I");
}

#[test]
fn validity_can_be_tested() {
    let lines = Lines::from_vec(vec![Line::with_step(0, Tokens::from_str("PvQ")), Line::new(1)]);
    assert!(lines.is_buffer());
    assert!(Lines::new().is_buffer());
    assert!(!Lines::from_vec(vec![]).is_buffer());
    assert!(!Lines::from_vec(vec![Line::new(1)]).is_buffer());
    assert!(!Lines::from_vec(vec![Line::new(0), Line::new(2)]).is_buffer());
    assert!(Cursor::new().lies_in(&lines));
    assert!(Cursor::at(0, Col::Step, 3).lies_in(&lines));
    assert!(!Cursor::at(0, Col::Step, 4).lies_in(&lines));
    assert!(!Cursor::at(0, Col::Method, 1).lies_in(&lines));
    assert!(Cursor::at(1, Col::Method, 0).lies_in(&lines));
    assert!(!Cursor::at(2, Col::Step, 0).lies_in(&lines));
    assert!(!Cursor::new().lies_in(&Lines::from_vec(vec![])));
}

#[test]
fn editor_stays_well_formed() {
    let mut e = Editor::new();
    assert!(e.is_well_formed());
    let actions = [
        Action::MoveLeft,
        Action::DeleteBackward,
        Action::InsertCharacter('<'),
        Action::InsertCharacter('-'),
        Action::InsertCharacter('>'),
        Action::MoveRight,
        Action::Split,
        Action::MoveRight,
        Action::Split,
        Action::DeleteForward,
        Action::DeleteBackward,
        Action::DeleteBackward,
        Action::MoveLeft,
        Action::MoveLeft,
        Action::InsertCharacter('7'),
        Action::DeleteForward,
        Action::DeleteForward,
        Action::DeleteForward,
        Action::DeleteForward,
    ];
    for a in actions {
        e.handle_input(a);
        assert!(e.is_well_formed());
    }
    for _ in 0..40 {
        e.handle_input(Action::MoveRight);
        assert!(e.is_well_formed());
    }
    for _ in 0..40 {
        e.handle_input(Action::DeleteBackward);
        assert!(e.is_well_formed());
    }
    assert!(e.lines().len() >= 1);
}
