use vstd::prelude::*;

use crate::grammar::SingleDashFlagSolver;

verus! {

/// Where the scanner stands between two characters of the input.
#[derive(Clone, Copy, Debug, PartialEq, Eq, Structural)]
pub enum ParserState {
    /// A new token must begin, with a dash.
    ExpectFlagStart,
    /// One dash was read.
    AfterFirstDash,
    /// Packed short flags are being read, one per character.
    CaptureShortRun,
    /// Two dashes were read: a name follows, or a space that makes them the separator.
    LongNameFirstChar,
    /// The characters of a long name are being read.
    LongName,
    /// The separator was read: the rest of the input is taken as it stands.
    RawRemainder,
    /// Scanning is over.
    Complete,
}

/// Why the input was refused.
#[derive(Clone, Copy, Debug, PartialEq, Eq, Structural)]
pub enum ParseErrorKind {
    /// A token does not begin with a dash.
    MalformedPrefix,
    /// A dash stands inside a run of packed short flags.
    InvalidShortRunCharacter,
    /// The input ended where more was expected.
    CursorOverrun,
}

/// A refusal, with the character index at which it was found.
#[derive(Clone, Copy, Debug, PartialEq, Eq, Structural)]
pub struct ParseError {
    pub kind: ParseErrorKind,
    pub index: usize,
}

/// What a transition records.
#[derive(Clone, Copy, Debug, PartialEq, Eq, Structural)]
pub enum Emit {
    Nothing,
    /// The current character is a short flag.
    Short(char),
    /// A long name begins at the current character.
    StartName,
    /// The long name that began at the last mark ends before the current character.
    EndName,
    /// The input from the current character on is the raw remainder.
    Rest,
}

/// One move of the scanner: the state it goes to, whether it consumes the
/// current character, and what it records.
#[derive(Clone, Copy, Debug, PartialEq, Eq, Structural)]
pub struct Transition {
    pub next: ParserState,
    pub advance: bool,
    pub emit: Emit,
}

/// The transition to `next`, consuming the current character when `advance`.
pub open spec fn mv(next: ParserState, advance: bool, emit: Emit) -> Transition {
    Transition { next, advance, emit }
}

/// The transition table. `current` is `None` at the end of the input.
///
/// Only two dashes followed by a space (or the end) make the separator: under
/// the one-long-flag dialect the name after a single dash begins at once, so
/// that a remainder is taken only after an explicit `--`.
pub open spec fn transition(
    dialect: SingleDashFlagSolver,
    state: ParserState,
    current: Option<char>,
) -> Result<Transition, ParseErrorKind> {
    match state {
        ParserState::ExpectFlagStart => match current {
            None => Ok(mv(ParserState::Complete, false, Emit::Nothing)),
            Some(c) => if c == '-' {
                Ok(mv(ParserState::AfterFirstDash, true, Emit::Nothing))
            } else {
                Err(ParseErrorKind::MalformedPrefix)
            },
        },
        ParserState::AfterFirstDash => match current {
            None => Err(ParseErrorKind::CursorOverrun),
            Some(c) => if c == '-' {
                Ok(mv(ParserState::LongNameFirstChar, true, Emit::Nothing))
            } else if dialect == SingleDashFlagSolver::ShortFlagSequence {
                Ok(mv(ParserState::CaptureShortRun, false, Emit::Nothing))
            } else {
                Ok(mv(ParserState::LongName, false, Emit::StartName))
            },
        },
        ParserState::CaptureShortRun => match current {
            None => Ok(mv(ParserState::Complete, false, Emit::Nothing)),
            Some(c) => if c == ' ' {
                Ok(mv(ParserState::ExpectFlagStart, true, Emit::Nothing))
            } else if c == '-' {
                Err(ParseErrorKind::InvalidShortRunCharacter)
            } else {
                Ok(mv(ParserState::CaptureShortRun, true, Emit::Short(c)))
            },
        },
        ParserState::LongNameFirstChar => match current {
            None => Ok(mv(ParserState::Complete, false, Emit::Rest)),
            Some(c) => if c == ' ' {
                Ok(mv(ParserState::RawRemainder, true, Emit::Nothing))
            } else {
                Ok(mv(ParserState::LongName, true, Emit::StartName))
            },
        },
        ParserState::LongName => match current {
            None => Ok(mv(ParserState::Complete, false, Emit::EndName)),
            Some(c) => if c == ' ' {
                Ok(mv(ParserState::ExpectFlagStart, true, Emit::EndName))
            } else {
                Ok(mv(ParserState::LongName, true, Emit::Nothing))
            },
        },
        ParserState::RawRemainder => Ok(mv(ParserState::Complete, false, Emit::Rest)),
        ParserState::Complete => Ok(mv(ParserState::Complete, false, Emit::Nothing)),
    }
}

impl ParserState {
    /// The move from this state on `current` (`None` at the end of the input).
    pub fn step(self, dialect: SingleDashFlagSolver, current: Option<char>) -> (r: Result<
        Transition,
        ParseErrorKind,
    >)
        ensures
            r == transition(dialect, self, current),
    {
        let one_long = match dialect {
            SingleDashFlagSolver::ShortFlagSequence => false,
            SingleDashFlagSolver::OneLongFlag => true,
        };
        match self {
            ParserState::ExpectFlagStart => match current {
                None => Ok(Transition { next: ParserState::Complete, advance: false, emit: Emit::Nothing }),
                Some(c) => if c == '-' {
                    Ok(Transition { next: ParserState::AfterFirstDash, advance: true, emit: Emit::Nothing })
                } else {
                    Err(ParseErrorKind::MalformedPrefix)
                },
            },
            ParserState::AfterFirstDash => match current {
                None => Err(ParseErrorKind::CursorOverrun),
                Some(c) => if c == '-' {
                    Ok(Transition { next: ParserState::LongNameFirstChar, advance: true, emit: Emit::Nothing })
                } else if !one_long {
                    Ok(Transition { next: ParserState::CaptureShortRun, advance: false, emit: Emit::Nothing })
                } else {
                    Ok(Transition { next: ParserState::LongName, advance: false, emit: Emit::StartName })
                },
            },
            ParserState::CaptureShortRun => match current {
                None => Ok(Transition { next: ParserState::Complete, advance: false, emit: Emit::Nothing }),
                Some(c) => if c == ' ' {
                    Ok(Transition { next: ParserState::ExpectFlagStart, advance: true, emit: Emit::Nothing })
                } else if c == '-' {
                    Err(ParseErrorKind::InvalidShortRunCharacter)
                } else {
                    Ok(Transition { next: ParserState::CaptureShortRun, advance: true, emit: Emit::Short(c) })
                },
            },
            ParserState::LongNameFirstChar => match current {
                None => Ok(Transition { next: ParserState::Complete, advance: false, emit: Emit::Rest }),
                Some(c) => if c == ' ' {
                    Ok(Transition { next: ParserState::RawRemainder, advance: true, emit: Emit::Nothing })
                } else {
                    Ok(Transition { next: ParserState::LongName, advance: true, emit: Emit::StartName })
                },
            },
            ParserState::LongName => match current {
                None => Ok(Transition { next: ParserState::Complete, advance: false, emit: Emit::EndName }),
                Some(c) => if c == ' ' {
                    Ok(Transition { next: ParserState::ExpectFlagStart, advance: true, emit: Emit::EndName })
                } else {
                    Ok(Transition { next: ParserState::LongName, advance: true, emit: Emit::Nothing })
                },
            },
            ParserState::RawRemainder => Ok(Transition { next: ParserState::Complete, advance: false, emit: Emit::Rest }),
            ParserState::Complete => Ok(Transition { next: ParserState::Complete, advance: false, emit: Emit::Nothing }),
        }
    }
}

} // verus!
