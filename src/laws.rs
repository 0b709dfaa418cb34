use vstd::prelude::*;

use crate::grammar::SingleDashFlagSolver;
use crate::machine::{Emit, ParseError, ParseErrorKind, ParserState};
use crate::scan::{nothing_found, record, result_view, run, scan, Scanned, UntypedArgs};

verus! {

/// Long flags written out as `--name1 --name2 ...`, one space between two flags.
pub open spec fn long_flag_line(names: Seq<Seq<char>>) -> Seq<char>
    decreases names.len(),
{
    if names.len() == 0 {
        Seq::empty()
    } else if names.len() == 1 {
        seq!['-', '-'] + names[0]
    } else {
        seq!['-', '-'] + names[0] + seq![' '] + long_flag_line(names.drop_first())
    }
}

/// A name that can stand in a long flag: not empty, and without a space.
pub open spec fn is_spaceless_name(name: Seq<char>) -> bool {
    name.len() > 0 && forall|j: int| 0 <= j < name.len() ==> name[j] != ' '
}

/// A character that can stand in a run of packed short flags.
pub open spec fn is_short_flag_char(c: char) -> bool {
    c != ' ' && c != '-'
}

/// Reading a long name from `q` up to the space or end at `e` records
/// the name begun at `st` and goes on after that space.
proof fn lemma_long_name_run(
    dialect: SingleDashFlagSolver,
    s: Seq<char>,
    q: int,
    st: int,
    e: int,
    f: Scanned,
)
    requires
        0 <= st <= q <= e <= s.len(),
        forall|i: int| q <= i < e ==> s[i] != ' ',
        e == s.len() || s[e] == ' ',
    ensures
        run(dialect, s, ParserState::LongName, q, st, f) == (if e == s.len() {
            Ok(record(f, Emit::EndName, s, e, st))
        } else {
            run(dialect, s, ParserState::ExpectFlagStart, e + 1, st, record(f, Emit::EndName, s, e, st))
        }),
    decreases e - q,
{
    if q < e {
        lemma_long_name_run(dialect, s, q + 1, st, e, f);
    }
}

/// A line of long flags, scanned from its first dash, adds its names in order.
proof fn lemma_long_flags_run(
    dialect: SingleDashFlagSolver,
    s: Seq<char>,
    p: int,
    st: int,
    f: Scanned,
    names: Seq<Seq<char>>,
)
    requires
        0 <= p <= s.len(),
        names.len() > 0,
        forall|k: int| 0 <= k < names.len() ==> is_spaceless_name(#[trigger] names[k]),
        s.subrange(p, s.len() as int) == long_flag_line(names),
    ensures
        run(dialect, s, ParserState::ExpectFlagStart, p, st, f) == Ok::<Scanned, ParseError>(
            Scanned { long: f.long + names, ..f },
        ),
    decreases names.len(),
{
    let first = names[0];
    let line = long_flag_line(names);
    let e = p + 2 + first.len();
    assert(is_spaceless_name(names[0]));
    let head = seq!['-', '-'] + first;
    if names.len() == 1 {
        assert(line == head);
    } else {
        assert(line == head + seq![' '] + long_flag_line(names.drop_first()));
    }
    assert(s.subrange(p, s.len() as int).len() == s.len() - p);
    assert(line.len() >= head.len());
    assert(head[0] == '-' && head[1] == '-' && head[2] == first[0]);
    assert forall|i: int| 0 <= i < head.len() implies s[p + i] == #[trigger] head[i] by {
        assert(s.subrange(p, s.len() as int)[i] == s[p + i]);
        assert(line[i] == head[i]);
    }
    assert(s[p + 0] == head[0] && s[p + 1] == head[1] && s[p + 2] == head[2]);
    assert forall|i: int| p + 3 <= i < e implies s[i] != ' ' by {
        assert(head[i - p] == first[i - p - 2]);
        assert(s[p + (i - p)] == head[i - p]);
    }
    assert(run(dialect, s, ParserState::ExpectFlagStart, p, st, f) == run(
        dialect,
        s,
        ParserState::AfterFirstDash,
        p + 1,
        st,
        f,
    ));
    assert(run(dialect, s, ParserState::AfterFirstDash, p + 1, st, f) == run(
        dialect,
        s,
        ParserState::LongNameFirstChar,
        p + 2,
        st,
        f,
    ));
    assert(run(dialect, s, ParserState::LongNameFirstChar, p + 2, st, f) == run(
        dialect,
        s,
        ParserState::LongName,
        p + 3,
        p + 2,
        f,
    ));
    assert forall|i: int| 0 <= i < first.len() implies s.subrange(p + 2, e)[i] == first[i] by {
        assert(s[p + (i + 2)] == head[i + 2]);
    }
    assert(s.subrange(p + 2, e) =~= first);
    let g = record(f, Emit::EndName, s, e, p + 2);
    if names.len() == 1 {
        assert(e == s.len());
        lemma_long_name_run(dialect, s, p + 3, p + 2, e, f);
        assert(g.long =~= f.long + names);
        assert(g == Scanned { long: f.long + names, ..f });
    } else {
        let tail = names.drop_first();
        assert(line[head.len() as int] == ' ');
        assert(s.subrange(p, s.len() as int)[head.len() as int] == s[e]);
        assert(s[e] == ' ');
        lemma_long_name_run(dialect, s, p + 3, p + 2, e, f);
        assert(s.subrange(e + 1, s.len() as int) =~= line.subrange(
            head.len() as int + 1,
            line.len() as int,
        ));
        assert(line.subrange(head.len() as int + 1, line.len() as int) =~= long_flag_line(tail));
        assert forall|k: int| 0 <= k < tail.len() implies is_spaceless_name(#[trigger] tail[k]) by {
            assert(tail[k] == names[k + 1]);
        }
        lemma_long_flags_run(dialect, s, e + 1, p + 2, g, tail);
        assert(g.long + tail =~= f.long + names);
    }
}

/// A run of packed short flags that lasts to the end of the input adds its
/// characters in order.
proof fn lemma_short_run(s: Seq<char>, q: int, st: int, f: Scanned)
    requires
        0 <= q <= s.len(),
        forall|i: int| q <= i < s.len() ==> is_short_flag_char(#[trigger] s[i]),
    ensures
        run(SingleDashFlagSolver::ShortFlagSequence, s, ParserState::CaptureShortRun, q, st, f)
            == Ok::<Scanned, ParseError>(
            Scanned { short: f.short + s.subrange(q, s.len() as int), ..f },
        ),
    decreases s.len() - q,
{
    if q < s.len() {
        assert(is_short_flag_char(s[q]));
        lemma_short_run(s, q + 1, st, record(f, Emit::Short(s[q]), s, q, st));
        assert(f.short.push(s[q]) + s.subrange(q + 1, s.len() as int) =~= f.short + s.subrange(
            q,
            s.len() as int,
        ));
    } else {
        assert(f.short + s.subrange(q, s.len() as int) =~= f.short);
    }
}

/// Long flags separated by single spaces, each name non-empty and without a
/// space, are found in the order written, with no short flag and no
/// remainder, in either dialect.
pub proof fn lemma_long_flags_found_in_order(
    dialect: SingleDashFlagSolver,
    names: Seq<Seq<char>>,
)
    requires
        names.len() > 0,
        forall|k: int| 0 <= k < names.len() ==> is_spaceless_name(#[trigger] names[k]),
    ensures
        scan(dialect, long_flag_line(names)) == Ok::<Scanned, ParseError>(
            Scanned { long: names, short: Seq::empty(), rest: None },
        ),
{
    let s = long_flag_line(names);
    assert(is_spaceless_name(names[0]));
    assert(s.len() > 0) by {
        if names.len() == 1 {
        } else {
        }
    }
    assert(s.subrange(0, s.len() as int) =~= s);
    lemma_long_flags_run(dialect, s, 0, 0, nothing_found(), names);
    assert(nothing_found().long + names =~= names);
}

/// Writing names without spaces or dashes out as `--name1 --name2 ...` and
/// tokenizing the line gives back the same names in the same order.
pub proof fn lemma_long_names_round_trip(dialect: SingleDashFlagSolver, names: Seq<Seq<char>>)
    requires
        names.len() > 0,
        forall|k: int|
            0 <= k < names.len() ==> (#[trigger] names[k]).len() > 0 && forall|j: int|
                0 <= j < names[k].len() ==> names[k][j] != ' ' && names[k][j] != '-',
    ensures
        scan(dialect, long_flag_line(names)) matches Ok(found) && found.long == names,
{
    assert forall|k: int| 0 <= k < names.len() implies is_spaceless_name(#[trigger] names[k]) by {}
    lemma_long_flags_found_in_order(dialect, names);
}

/// Under the short-flag dialect, one dash followed by characters that are
/// neither spaces nor dashes gives those characters as short flags, in order.
pub proof fn lemma_short_flags_found_in_order(letters: Seq<char>)
    requires
        letters.len() > 0,
        forall|i: int| 0 <= i < letters.len() ==> is_short_flag_char(#[trigger] letters[i]),
    ensures
        scan(SingleDashFlagSolver::ShortFlagSequence, seq!['-'] + letters) == Ok::<
            Scanned,
            ParseError,
        >(Scanned { long: Seq::empty(), short: letters, rest: None }),
{
    let d = SingleDashFlagSolver::ShortFlagSequence;
    let s = seq!['-'] + letters;
    assert(s[0] == '-');
    assert(s[1] == letters[0]);
    assert forall|i: int| 1 <= i < s.len() implies is_short_flag_char(#[trigger] s[i]) by {
        assert(s[i] == letters[i - 1]);
    }
    assert(run(d, s, ParserState::ExpectFlagStart, 0, 0, nothing_found()) == run(
        d,
        s,
        ParserState::AfterFirstDash,
        1,
        0,
        nothing_found(),
    ));
    assert(run(d, s, ParserState::AfterFirstDash, 1, 0, nothing_found()) == run(
        d,
        s,
        ParserState::CaptureShortRun,
        1,
        0,
        nothing_found(),
    ));
    lemma_short_run(s, 1, 0, nothing_found());
    assert(nothing_found().short + s.subrange(1, s.len() as int) =~= letters);
}

/// `-- ` followed by any text gives that text, as it stands, as the raw
/// remainder, and no flag, in either dialect.
pub proof fn lemma_separator_keeps_rest(dialect: SingleDashFlagSolver, rest: Seq<char>)
    ensures
        scan(dialect, seq!['-', '-', ' '] + rest) == Ok::<Scanned, ParseError>(
            Scanned { long: Seq::empty(), short: Seq::empty(), rest: Some(rest) },
        ),
{
    let s = seq!['-', '-', ' '] + rest;
    let f = nothing_found();
    assert(s[0] == '-' && s[1] == '-' && s[2] == ' ');
    assert(run(dialect, s, ParserState::ExpectFlagStart, 0, 0, f) == run(
        dialect,
        s,
        ParserState::AfterFirstDash,
        1,
        0,
        f,
    ));
    assert(run(dialect, s, ParserState::AfterFirstDash, 1, 0, f) == run(
        dialect,
        s,
        ParserState::LongNameFirstChar,
        2,
        0,
        f,
    ));
    assert(run(dialect, s, ParserState::LongNameFirstChar, 2, 0, f) == run(
        dialect,
        s,
        ParserState::RawRemainder,
        3,
        0,
        f,
    ));
    assert(s.subrange(3, s.len() as int) =~= rest);
}

/// An input whose first character is not a dash is refused at its first
/// character as a malformed prefix, in either dialect.
pub proof fn lemma_no_leading_dash_is_malformed(dialect: SingleDashFlagSolver, s: Seq<char>)
    requires
        s.len() > 0,
        s[0] != '-',
    ensures
        scan(dialect, s) == Err::<Scanned, ParseError>(
            ParseError { kind: ParseErrorKind::MalformedPrefix, index: 0 },
        ),
{
}

/// Parsing keeps no state between calls: any two results that `parse` may
/// give for one grammar and one input are the same.
pub proof fn lemma_parse_is_deterministic(
    dialect: SingleDashFlagSolver,
    s: Seq<char>,
    first: Result<UntypedArgs, ParseError>,
    second: Result<UntypedArgs, ParseError>,
)
    requires
        result_view(first) == scan(dialect, s),
        result_view(second) == scan(dialect, s),
    ensures
        result_view(first) == result_view(second),
{
}

} // verus!
