//! Propositional-logic proof lines: a token normalizer, a formula tree with a
//! minimally parenthesized rendering, and a line buffer driven by a cursor.
//!
//! - [`consts`] holds the spelling table: which characters are read as which
//!   operator, and how operators are written.
//! - [`tok`] holds tokens and the normal form of a token sequence, in which
//!   every spelled operator is the operator itself.
//! - [`form`] holds formulas and their text.
//! - [`line`] and [`lines`] hold the lines of a proof, numbered by their place.
//! - [`cursor`] holds the moves and edits that are made at a position in the
//!   lines, each of which either is carried out or changes nothing.
//! - [`editor`] holds lines and cursor together and carries out the actions
//!   of a host.

pub mod consts;
pub mod cursor;
pub mod editor;
pub mod form;
pub mod line;
pub mod lines;
pub mod prelude;
pub mod text;
pub mod tok;

pub use consts::{Op, Style, Table};
pub use cursor::{Col, Cursor, EditError};
pub use editor::{Action, Editor, Outcome};
pub use form::Formula;
pub use line::Line;
pub use lines::Lines;
pub use tok::{Token, Tokens};
