use vstd::prelude::*;

use crate::grammar::{
    long_names, short_names, ArgProp, CommandLineArgumentsDefinition, LongArg, ShortArg,
    SingleDashFlagSolver,
};
use crate::machine::{transition, Emit, ParseError, ParseErrorKind, ParserState};
use crate::text::chars_of;

verus! {

/// What a scan has found so far: long names and short flags in input order,
/// and the raw remainder once the separator was read.
pub ghost struct Scanned {
    pub long: Seq<Seq<char>>,
    pub short: Seq<char>,
    pub rest: Option<Seq<char>>,
}

/// The findings before any character was read.
pub open spec fn nothing_found() -> Scanned {
    Scanned { long: Seq::empty(), short: Seq::empty(), rest: None }
}

/// The result of tokenizing one input string.
#[derive(Clone, Debug, PartialEq, Eq)]
pub struct UntypedArgs {
    pub detected_long: Vec<LongArg>,
    pub detected_short: Vec<ShortArg>,
    pub rest: Option<String>,
}

/// The characters of the raw remainder, if there is one.
pub open spec fn rest_view(rest: Option<String>) -> Option<Seq<char>> {
    match rest {
        Some(r) => Some(r@),
        None => None,
    }
}

impl View for UntypedArgs {
    type V = Scanned;

    open spec fn view(&self) -> Scanned {
        Scanned {
            long: long_names(self.detected_long@),
            short: short_names(self.detected_short@),
            rest: rest_view(self.rest),
        }
    }
}

/// What a transition's record adds to the findings, at character `pos` of
/// `s`, with the current long name begun at `start`.
pub open spec fn record(found: Scanned, emit: Emit, s: Seq<char>, pos: int, start: int) -> Scanned {
    match emit {
        Emit::Short(c) => Scanned { short: found.short.push(c), ..found },
        Emit::EndName => Scanned { long: found.long.push(s.subrange(start, pos)), ..found },
        Emit::Rest => Scanned { rest: Some(s.subrange(pos, s.len() as int)), ..found },
        _ => found,
    }
}

/// States left without consuming a character rank above the states they go to.
pub open spec fn rank(state: ParserState) -> int {
    match state {
        ParserState::AfterFirstDash => 1,
        ParserState::RawRemainder => 1,
        _ => 0,
    }
}

/// The scanner run from `state` at character `pos` of `s`, the current long
/// name begun at `start`, with `found` recorded so far.
pub open spec fn run(
    dialect: SingleDashFlagSolver,
    s: Seq<char>,
    state: ParserState,
    pos: int,
    start: int,
    found: Scanned,
) -> Result<Scanned, ParseError>
    decreases s.len() - pos, rank(state),
{
    if state == ParserState::Complete || pos < 0 || pos > s.len() {
        Ok(found)
    } else {
        let current = if pos < s.len() { Some(s[pos]) } else { None };
        match transition(dialect, state, current) {
            Err(kind) => Err(ParseError { kind, index: pos as usize }),
            Ok(t) => {
                let found2 = record(found, t.emit, s, pos, start);
                let start2 = if t.emit == Emit::StartName { pos } else { start };
                if t.next == ParserState::Complete {
                    Ok(found2)
                } else {
                    run(dialect, s, t.next, if t.advance { pos + 1 } else { pos }, start2, found2)
                }
            },
        }
    }
}

/// The tokenizer on a whole input: an empty input is refused, any other is
/// scanned from its first character.
pub open spec fn scan(dialect: SingleDashFlagSolver, s: Seq<char>) -> Result<Scanned, ParseError> {
    if s.len() == 0 {
        Err(ParseError { kind: ParseErrorKind::CursorOverrun, index: 0 })
    } else {
        run(dialect, s, ParserState::ExpectFlagStart, 0, 0, nothing_found())
    }
}

/// The model of a parse result: the findings' view, or the refusal itself.
pub open spec fn result_view(r: Result<UntypedArgs, ParseError>) -> Result<Scanned, ParseError> {
    match r {
        Ok(a) => Ok(a@),
        Err(e) => Err(e),
    }
}

impl CommandLineArgumentsDefinition {
    /// Splits `s` into the long flags, short flags and raw remainder it holds,
    /// reading a single dash as `self.chars_after_single_dash` says.
    ///
    /// The result is exactly what `scan` gives: the flags in input order, or
    /// the first refusal with the index of the character where it was found.
    /// No partial result is returned on a refusal.
    pub fn parse(&self, s: &str) -> (r: Result<UntypedArgs, ParseError>)
        ensures
            result_view(r) == scan(self.chars_after_single_dash, s@),
    {
        let dialect = self.chars_after_single_dash;
        let chars = chars_of(s);
        let n = chars.len();
        if n == 0 {
            return Err(ParseError { kind: ParseErrorKind::CursorOverrun, index: 0 });
        }
        let mut state = ParserState::ExpectFlagStart;
        let mut pos: usize = 0;
        let mut start: usize = 0;
        let mut detected_long: Vec<LongArg> = Vec::new();
        let mut detected_short: Vec<ShortArg> = Vec::new();
        let mut rest: Option<String> = None;
        proof {
            let none = (UntypedArgs { detected_long, detected_short, rest })@;
            assert(none.long =~= nothing_found().long);
            assert(none.short =~= nothing_found().short);
        }
        loop
            invariant
                dialect == self.chars_after_single_dash,
                chars@ == s@,
                n == s@.len(),
                start <= pos <= n,
                state != ParserState::Complete,
                run(
                    dialect,
                    s@,
                    state,
                    pos as int,
                    start as int,
                    (UntypedArgs { detected_long, detected_short, rest })@,
                ) == scan(dialect, s@),
            decreases n - pos, rank(state),
        {
            let ghost found = (UntypedArgs { detected_long, detected_short, rest })@;
            let current = if pos < n { Some(chars[pos]) } else { None };
            let t = match state.step(dialect, current) {
                Ok(t) => t,
                Err(kind) => {
                    return Err(ParseError { kind, index: pos });
                },
            };
            match t.emit {
                Emit::Short(c) => {
                    detected_short.push(ShortArg { name: c, settings: ArgProp });
                },
                Emit::StartName => {
                    start = pos;
                },
                Emit::EndName => {
                    let name = String::from_str(s.substring_char(start, pos));
                    detected_long.push(LongArg { name, settings: ArgProp });
                },
                Emit::Rest => {
                    rest = Some(String::from_str(s.substring_char(pos, n)));
                },
                Emit::Nothing => {},
            }
            proof {
                let now = (UntypedArgs { detected_long, detected_short, rest })@;
                assert(now.long =~= record(found, t.emit, s@, pos as int, start as int).long);
                assert(now.short =~= record(found, t.emit, s@, pos as int, start as int).short);
                assert(now == record(found, t.emit, s@, pos as int, start as int));
            }
            if t.next == ParserState::Complete {
                return Ok(UntypedArgs { detected_long, detected_short, rest });
            }
            state = t.next;
            if t.advance {
                pos = pos + 1;
            }
        }
    }
}

} // verus!
