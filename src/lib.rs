//! A tokenizer for command-line argument strings: it finds the long flags
//! (`--name`), the short flags (`-abc`) and the raw remainder after a `--`
//! separator in one pass, under one of two readings of a single dash.
pub mod grammar;
pub mod laws;
pub mod machine;
pub mod scan;
pub mod text;

pub use grammar::{ArgProp, CommandLineArgumentsDefinition, LongArg, ShortArg, SingleDashFlagSolver};
pub use machine::{Emit, ParseError, ParseErrorKind, ParserState, Transition};
pub use scan::UntypedArgs;
