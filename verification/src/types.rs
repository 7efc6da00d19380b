//! Small shared types: grid coordinates and the error type.

use vstd::prelude::*;
use vstd::std_specs::convert::FromSpecImpl;
use vstd::std_specs::ops::{AddSpecImpl, SubSpecImpl};

verus! {

/// A position or an extent on the character grid.
#[derive(Clone, Copy, Debug, PartialEq, Eq, Structural)]
pub struct Vec2d {
    pub col: u16,
    pub row: u16,
}

impl Vec2d {
    /// The cell or extent with the given column and row.
    pub fn new(col: u16, row: u16) -> (v: Vec2d)
        ensures
            v == (Vec2d { col, row }),
    {
        Vec2d { col, row }
    }

    /// Component-wise sum, or `None` when a component would leave `u16`.
    pub fn checked_add(self, rhs: Vec2d) -> (sum: Option<Vec2d>)
        ensures
            sum == if self.col + rhs.col <= u16::MAX && self.row + rhs.row <= u16::MAX {
                Some(Vec2d { col: (self.col + rhs.col) as u16, row: (self.row + rhs.row) as u16 })
            } else {
                None
            },
    {
        if self.col <= u16::MAX - rhs.col && self.row <= u16::MAX - rhs.row {
            Some(Vec2d { col: self.col + rhs.col, row: self.row + rhs.row })
        } else {
            None
        }
    }
}

impl Default for Vec2d {
    fn default() -> (v: Vec2d)
        ensures
            v == (Vec2d { col: 0, row: 0 }),
    {
        Vec2d { col: 0, row: 0 }
    }
}

impl std::ops::Add for Vec2d {
    type Output = Vec2d;

    fn add(self, rhs: Vec2d) -> (sum: Vec2d) {
        Vec2d { col: self.col + rhs.col, row: self.row + rhs.row }
    }
}

impl AddSpecImpl for Vec2d {
    open spec fn obeys_add_spec() -> bool {
        true
    }

    open spec fn add_req(self, rhs: Vec2d) -> bool {
        self.col + rhs.col <= u16::MAX && self.row + rhs.row <= u16::MAX
    }

    open spec fn add_spec(self, rhs: Vec2d) -> Vec2d {
        Vec2d { col: (self.col + rhs.col) as u16, row: (self.row + rhs.row) as u16 }
    }
}

impl std::ops::Sub for Vec2d {
    type Output = Vec2d;

    fn sub(self, rhs: Vec2d) -> (difference: Vec2d) {
        Vec2d { col: self.col - rhs.col, row: self.row - rhs.row }
    }
}

impl SubSpecImpl for Vec2d {
    open spec fn obeys_sub_spec() -> bool {
        true
    }

    open spec fn sub_req(self, rhs: Vec2d) -> bool {
        self.col >= rhs.col && self.row >= rhs.row
    }

    open spec fn sub_spec(self, rhs: Vec2d) -> Vec2d {
        Vec2d { col: (self.col - rhs.col) as u16, row: (self.row - rhs.row) as u16 }
    }
}

impl From<(u16, u16)> for Vec2d {
    fn from(value: (u16, u16)) -> (v: Vec2d) {
        Vec2d { col: value.0, row: value.1 }
    }
}

impl FromSpecImpl<(u16, u16)> for Vec2d {
    open spec fn obeys_from_spec() -> bool {
        true
    }

    open spec fn from_spec(value: (u16, u16)) -> Vec2d {
        Vec2d { col: value.0, row: value.1 }
    }
}

/// `std::io::Error`, carried through as an opaque value.
#[verifier::external_type_specification]
#[verifier::external_body]
pub struct ExIoError(std::io::Error);

/// What can go wrong in the browser.
#[derive(Debug)]
pub enum MmmError {
    /// A failure described by its message.
    General(String),
    /// A box or pane that does not fit its geometry.
    Layout,
    /// A cursor position outside the frame buffer.
    TerminalBuffer,
    /// A failed read or write, as the operating system reported it.
    Io(std::io::Error),
}

pub type MmmResult<T> = Result<T, MmmError>;

/// The text that `std::io::Error` formats itself to with `Display`. Nothing
/// is claimed of it.
#[verifier::external_body]
fn io_error_text(error: &std::io::Error) -> (text: String) {
    format!("{}", error)
}

impl MmmError {
    /// What starts the message of every `Io` error.
    pub open spec fn io_prefix() -> Seq<char> {
        "i/o error: "@
    }

    /// The message shown to the user.
    pub fn to_string(&self) -> (message: String)
        ensures
            match self {
                MmmError::General(text) => message@ == text@,
                MmmError::Layout => message@ == "layout error"@,
                MmmError::TerminalBuffer => message@ == "terminal buffer error"@,
                MmmError::Io(_) => message@.len() >= Self::io_prefix().len() && message@.take(
                    Self::io_prefix().len() as int,
                ) == Self::io_prefix(),
            },
    {
        match self {
            MmmError::General(text) => text.clone(),
            MmmError::Layout => "layout error".to_owned(),
            MmmError::TerminalBuffer => "terminal buffer error".to_owned(),
            MmmError::Io(error) => {
                let mut message = "i/o error: ".to_owned();
                let detail = io_error_text(error);
                message.push_str(detail.as_str());
                assert(message@.take(Self::io_prefix().len() as int) =~= Self::io_prefix());
                message
            },
        }
    }
}

impl From<std::io::Error> for MmmError {
    fn from(error: std::io::Error) -> (e: MmmError) {
        MmmError::Io(error)
    }
}

impl FromSpecImpl<std::io::Error> for MmmError {
    open spec fn obeys_from_spec() -> bool {
        true
    }

    open spec fn from_spec(error: std::io::Error) -> MmmError {
        MmmError::Io(error)
    }
}

impl From<String> for MmmError {
    fn from(error: String) -> (e: MmmError) {
        MmmError::General(error)
    }
}

impl FromSpecImpl<String> for MmmError {
    open spec fn obeys_from_spec() -> bool {
        true
    }

    open spec fn from_spec(error: String) -> MmmError {
        MmmError::General(error)
    }
}

} // verus!
