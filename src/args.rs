//! The command line: which way to copy, and whether to only show what
//! would be done.
use vstd::prelude::*;

verus! {

/// The options given on the command line.
#[derive(Debug, PartialEq, Eq)]
pub struct Cli {
    /// The configuration file to read.
    pub config: Option<String>,
    /// The manager directory to use.
    pub manager: Option<String>,
    /// Copy from the manager directory onto the system.
    pub from: bool,
    /// Show what would be done without doing it.
    pub dry: bool,
}

/// A command line that could not be read, or a request for help: the text
/// to show and the exit code to end with.
#[derive(Debug, PartialEq, Eq)]
pub struct ArgsError {
    pub message: String,
    pub exit_code: i32,
}

/// One option of a command: its name, which is also its long form
/// (`--name`), its short form (`-c`), and whether it is a switch that takes
/// no value.
pub struct OptionSpec {
    pub name: &'static str,
    pub short: char,
    pub switch: bool,
}

pub open spec fn table_view(t: Seq<OptionSpec>) -> Seq<(Seq<char>, char, bool)> {
    t.map_values(|o: OptionSpec| (o.name@, o.short, o.switch))
}

/// A table of options that clap accepts beside its own `--help` and
/// `--version`: names are non-empty, do not start with `-` and are not
/// `help` or `version`; short forms are not `-`, `h` or `V`; no two options
/// share a name or a short form.
pub open spec fn table_ok(t: Seq<(Seq<char>, char, bool)>) -> bool {
    &&& forall|i: int|
        0 <= i < t.len() ==> {
            &&& (#[trigger] t[i]).0.len() > 0
            &&& t[i].0[0] != '-'
            &&& t[i].0 != "help"@
            &&& t[i].0 != "version"@
            &&& t[i].1 != '-'
            &&& t[i].1 != 'h'
            &&& t[i].1 != 'V'
        }
    &&& forall|i: int, j: int| 0 <= i < j < t.len() ==> (#[trigger] t[i]).0 != (#[trigger] t[j]).0 && t[i].1 != t[j].1
}

/// What clap makes of the arguments `args` (the program's name first) for
/// a command named `name`, of version `version`, with the options of
/// `table`: for each option in turn, its
/// switch value and its text value where it has them; or clap's rendered
/// message and exit code where the arguments do not match.
pub uninterp spec fn clap_matches(
    name: Seq<char>,
    version: Seq<char>,
    args: Seq<Seq<char>>,
    table: Seq<(Seq<char>, char, bool)>,
) -> Result<
    Seq<(Option<bool>, Option<Seq<char>>)>,
    (Seq<char>, i32),
>;

pub open spec fn args_view(args: Seq<String>) -> Seq<Seq<char>> {
    args.map_values(|s: String| s@)
}

pub open spec fn matches_view(r: Result<Vec<(Option<bool>, Option<String>)>, (String, i32)>) -> Result<
    Seq<(Option<bool>, Option<Seq<char>>)>,
    (Seq<char>, i32),
> {
    match r {
        Ok(v) => Ok(
            v@.map_values(
                |p: (Option<bool>, Option<String>)|
                    (
                        p.0,
                        match p.1 {
                            Some(s) => Some(s@),
                            None => None,
                        },
                    ),
            ),
        ),
        Err((m, c)) => Err((m@, c)),
    }
}

/// Relies on clap's builder: `Command::new(name).version(version)` with one
/// `Arg::new(o).short(c).long(o)` per option, `action(ArgAction::SetTrue)`
/// for a switch, then `Command::try_get_matches_from`, and per option
/// `ArgMatches::try_get_one` as `bool` and as `String`. A failed match is
/// clap's error as its rendered text and `exit_code`.
#[verifier::external_body]
fn match_args(
    name: &'static str,
    version: &'static str,
    table: &Vec<OptionSpec>,
    args: &Vec<String>,
) -> (r: Result<
    Vec<(Option<bool>, Option<String>)>,
    (String, i32),
>)
    requires
        table_ok(table_view(table@)),
    ensures
        matches_view(r) == clap_matches(name@, version@, args_view(args@), table_view(table@)),
        r is Ok ==> r->Ok_0@.len() == table@.len(),
{
    let cmd = table.iter().fold(clap::Command::new(name).version(version), |c, o| {
        let a = clap::Arg::new(o.name).short(o.short).long(o.name);
        c.arg(if o.switch { a.action(clap::ArgAction::SetTrue) } else { a })
    });
    let m = cmd.try_get_matches_from(args).map_err(|e| (e.to_string(), e.exit_code()))?;
    Ok(table.iter().map(|o| (
        m.try_get_one::<bool>(o.name).ok().flatten().copied(),
        m.try_get_one::<String>(o.name).ok().flatten().cloned(),
    )).collect())
}

/// The options of this program: `-c`/`--config` and `-m`/`--manager` take
/// a path, `-f`/`--from` and `-d`/`--dry` are switches.
pub open spec fn cli_table() -> Seq<(Seq<char>, char, bool)> {
    seq![("config"@, 'c', false), ("manager"@, 'm', false), ("from"@, 'f', true), ("dry"@, 'd', true)]
}

fn option_table() -> (r: Vec<OptionSpec>)
    ensures
        table_view(r@) == cli_table(),
{
    let mut t: Vec<OptionSpec> = Vec::new();
    t.push(OptionSpec { name: "config", short: 'c', switch: false });
    t.push(OptionSpec { name: "manager", short: 'm', switch: false });
    t.push(OptionSpec { name: "from", short: 'f', switch: true });
    t.push(OptionSpec { name: "dry", short: 'd', switch: true });
    proof {
        assert(table_view(t@) =~= cli_table());
    }
    t
}

proof fn lemma_cli_table_ok()
    ensures
        table_ok(cli_table()),
{
    reveal_strlit("config");
    reveal_strlit("manager");
    reveal_strlit("from");
    reveal_strlit("dry");
    reveal_strlit("help");
    reveal_strlit("version");
    let t = cli_table();
    assert(t[0].0.len() != t[1].0.len() || t[0].0[1] != t[1].0[1]);
    assert(t[0].0[0] != t[2].0[0] && t[0].0[0] != t[3].0[0]);
    assert(t[1].0[0] != t[2].0[0] && t[1].0[0] != t[3].0[0]);
    assert(t[2].0[0] != t[3].0[0]);
    assert(t[0].0 != "help"@ && t[1].0 != "help"@ && t[2].0 != "help"@ && t[3].0 != "help"@) by {
        assert("help"@[0] == 'h');
    }
    assert(t[0].0 != "version"@ && t[1].0 != "version"@ && t[2].0 != "version"@ && t[3].0 != "version"@) by {
        assert("version"@[0] == 'v');
    }
}

pub open spec fn cli_view(c: Cli) -> (Option<Seq<char>>, Option<Seq<char>>, bool, bool) {
    (
        match c.config {
            Some(s) => Some(s@),
            None => None,
        },
        match c.manager {
            Some(s) => Some(s@),
            None => None,
        },
        c.from,
        c.dry,
    )
}

impl Cli {
    /// The options from the values read for each; a switch without a value
    /// is off.
    pub fn from_values(config: Option<String>, manager: Option<String>, from: Option<bool>, dry: Option<bool>) -> (r: Cli)
        ensures
            r.config == config,
            r.manager == manager,
            r.from == (from == Some(true)),
            r.dry == (dry == Some(true)),
    {
        let from = match from {
            Some(b) => b,
            None => false,
        };
        let dry = match dry {
            Some(b) => b,
            None => false,
        };
        Cli { config, manager, from, dry }
    }
}

/// Reads the command line `args`, the program's name first, against the
/// options of `cli_table`, for the command `dotfiles`, version `0.1.0`. Where clap matches the arguments, the options
/// are the values it read; where it does not (or help was asked for), the
/// error is clap's message and exit code.
pub fn parse_args(args: &Vec<String>) -> (r: Result<Cli, ArgsError>)
    ensures
        ({
            let m = clap_matches("dotfiles"@, "0.1.0"@, args_view(args@), cli_table());
            &&& r is Err <==> m is Err
            &&& m is Err ==> (r->Err_0.message@, r->Err_0.exit_code) == m->Err_0
            &&& m is Ok ==> cli_view(r->Ok_0) == (
                m->Ok_0[0].1,
                m->Ok_0[1].1,
                m->Ok_0[2].0 == Some(true),
                m->Ok_0[3].0 == Some(true),
            )
        }),
{
    let table = option_table();
    proof {
        lemma_cli_table_ok();
        assert(table_view(table@).len() == table@.len());
    }
    match match_args("dotfiles", "0.1.0", &table, args) {
        Err((message, exit_code)) => Err(ArgsError { message, exit_code }),
        Ok(values) => {
            let ghost mv = matches_view(Ok::<Vec<(Option<bool>, Option<String>)>, (String, i32)>(values));
            let config = match &values[0].1 {
                Some(s) => Some(s.clone()),
                None => None,
            };
            let manager = match &values[1].1 {
                Some(s) => Some(s.clone()),
                None => None,
            };
            let from = values[2].0;
            let dry = values[3].0;
            proof {
                assert(mv->Ok_0[0] == (values@[0].0, match values@[0].1 { Some(s) => Some(s@), None => None }));
                assert(mv->Ok_0[1] == (values@[1].0, match values@[1].1 { Some(s) => Some(s@), None => None }));
                assert(mv->Ok_0[2].0 == values@[2].0);
                assert(mv->Ok_0[3].0 == values@[3].0);
            }
            Ok(Cli::from_values(config, manager, from, dry))
        },
    }
}

} // verus!
