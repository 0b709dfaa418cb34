use cli_tokenizer::{ArgProp, CommandLineArgumentsDefinition, LongArg, ShortArg, SingleDashFlagSolver};
use itertools::Itertools;

#[test]
fn simplest() {
    arbitrary_long_flags(&["foo"]);
}

#[test]
fn two_flags() {
    arbitrary_long_flags(&["foo", "bar"]);
}

fn arbitrary_long_flags<'slice: 'e, 'e>(long_flags: &'slice [&'e str]) {
    arbitrary_short_and_long(&[], long_flags);
}

#[test]
fn short_flag() {
    arbitrary_short_flags(&['a'])
}

#[test]
fn short_flags() {
    arbitrary_short_flags(&['a', 'b', 'c', 'd', 'e']);
}

fn arbitrary_short_flags(short: &[char]) {
    arbitrary_short_and_long(short, &[]);
}

#[test]
fn mixed() {
    arbitrary_short_and_long(&['a', 'b', 'c'], &["foo", "bar", "baz"]);
}

fn arbitrary_short_and_long<'ss, 'ls: 'le, 'le>(short: &'ss [char], long: &'ls [&'le str]) {
    let def = CommandLineArgumentsDefinition {
        short_args: short
            .iter()
            .map(|a| ShortArg {
                name: *a,
                settings: ArgProp,
            })
            .collect(),
        long_args: long
            .iter()
            .map(|a| LongArg {
                name: a.to_string(),
                settings: ArgProp,
            })
            .collect(),
        chars_after_single_dash: SingleDashFlagSolver::ShortFlagSequence,
    };

    let short_flags = short.iter().join("");
    let long_flags = long.iter().map(|a| format!("--{a}")).join(" ");
    let x = def.parse(format!("-{short_flags} {long_flags}").as_str()).unwrap();
    assert!(x.rest.is_none());
    short.iter().enumerate().for_each(|(i, e)| {
        assert_eq!(x.detected_short[i].name, *e);
    });
    long.iter().enumerate().for_each(|(i, e)| {
        assert_eq!(x.detected_long[i].name, e.to_string());
    });
}

#[test]
fn single_dash_long_flag() {
    let def = CommandLineArgumentsDefinition {
        long_args: vec![LongArg {
            name: "foobarbaz".to_string(),
            settings: ArgProp,
        }],
        short_args: vec![],
        chars_after_single_dash: SingleDashFlagSolver::OneLongFlag,
    };

    let x = def.parse("-foobarbaz").unwrap();
    assert!(x.rest.is_none());
    assert!(x.detected_short.is_empty());
    assert_eq!(x.detected_long.len(), 1);
    assert_eq!(x.detected_long[0].name, "foobarbaz".to_string());
}

#[test]
fn single_dash_long_flags() {
    let def = CommandLineArgumentsDefinition {
        long_args: vec![
            LongArg {
                name: "foobarbaz".to_string(),
                settings: ArgProp,
            },
            LongArg {
                name: "quux".to_string(),
                settings: ArgProp,
            },
        ],
        short_args: vec![],
        chars_after_single_dash: SingleDashFlagSolver::OneLongFlag,
    };

    let x = def.parse("-foobarbaz -quux").unwrap();
    assert!(x.rest.is_none());
    assert!(x.detected_short.is_empty());
    assert_eq!(x.detected_long.len(), 2);
    assert_eq!(x.detected_long[0].name, "foobarbaz".to_string());
    assert_eq!(x.detected_long[1].name, "quux".to_string());
}
