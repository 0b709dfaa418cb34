use vstd::prelude::*;

verus! {

/// Properties attached to a declared flag; none are defined yet.
#[derive(Clone, Copy, Debug, PartialEq, Eq, Structural)]
pub struct ArgProp;

/// A long flag, written `--name` (or `-name` under the one-long-flag dialect).
#[derive(Clone, Debug, PartialEq, Eq)]
pub struct LongArg {
    pub name: String,
    pub settings: ArgProp,
}

/// A short flag, written `-c`, possibly packed with others as in `-abc`.
#[derive(Clone, Copy, Debug, PartialEq, Eq, Structural)]
pub struct ShortArg {
    pub name: char,
    pub settings: ArgProp,
}

/// Which meaning a single dash followed by several characters has.
#[derive(Clone, Copy, Debug, PartialEq, Eq, Structural)]
pub enum SingleDashFlagSolver {
    /// `-flto` is `-f -l -t -o`, as GNU coreutils read it.
    ShortFlagSequence,
    /// `-flto` is one long flag named `flto`, as GCC or Clang read it.
    OneLongFlag,
}

/// The flags that an invocation understands, and how it reads a single dash.
///
/// The declarations are not consulted while scanning: checking the detected
/// flags against them is left to the caller, as are duplicates among them.
#[derive(Clone, Debug, PartialEq, Eq)]
pub struct CommandLineArgumentsDefinition {
    pub long_args: Vec<LongArg>,
    pub short_args: Vec<ShortArg>,
    pub chars_after_single_dash: SingleDashFlagSolver,
}

/// The names of a sequence of long flags, in order.
pub open spec fn long_names(args: Seq<LongArg>) -> Seq<Seq<char>> {
    args.map_values(|a: LongArg| a.name@)
}

/// The names of a sequence of short flags, in order.
pub open spec fn short_names(args: Seq<ShortArg>) -> Seq<char> {
    args.map_values(|a: ShortArg| a.name)
}

} // verus!
