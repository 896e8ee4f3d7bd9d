use vstd::prelude::*;

use crate::default_config::{same_text, DefaultConfig, PartialModel};
use crate::parser::{texts, SearchMode};
use crate::ErrorKind;

verus! {

/// What a finished configuration says.
pub struct ConfigModel {
    pub query: Seq<char>,
    pub filename: Seq<char>,
    pub help: bool,
    pub search_mode: SearchMode,
}

/// A complete search request: what to look for, where, and how.
#[derive(Debug)]
pub struct Config {
    query: String,
    filename: String,
    help: bool,
    search_mode: SearchMode,
}

impl View for Config {
    type V = ConfigModel;

    closed spec fn view(&self) -> ConfigModel {
        ConfigModel {
            query: self.query@,
            filename: self.filename@,
            help: self.help,
            search_mode: self.search_mode,
        }
    }
}

/// The spellings of the help flag.
pub open spec fn is_help_flag(t: Seq<char>) -> bool {
    t == "--help"@ || t == "-h"@
}

/// The spellings of the case-sensitivity flag, which takes a value.
pub open spec fn is_case_flag(t: Seq<char>) -> bool {
    t == "--case-sensitive"@ || t == "-c"@
}

/// The spellings of the file name flag, which takes a value.
pub open spec fn is_filename_flag(t: Seq<char>) -> bool {
    t == "--filename"@ || t == "-f"@
}

/// The spellings of the query flag, which takes a value.
pub open spec fn is_query_flag(t: Seq<char>) -> bool {
    t == "--query"@ || t == "-q"@
}

/// One of the spellings that the command line reads as a flag.
pub open spec fn is_flag(t: Seq<char>) -> bool {
    is_help_flag(t) || is_case_flag(t) || is_filename_flag(t) || is_query_flag(t)
}

/// Reads the tokens of `args` from position `i` on into `m`, left to right.
/// A flag that takes a value takes the token after it, and reading goes on
/// after that value; any other token is the query at position 0, the file name
/// at position 1, and ignored elsewhere. `None` when a file name or query flag
/// is the last token; a case flag as the last token changes nothing.
pub open spec fn scan(args: Seq<Seq<char>>, i: nat, m: PartialModel) -> Option<PartialModel>
    decreases args.len() - i,
{
    if i >= args.len() {
        Some(m)
    } else {
        let t = args[i as int];
        if is_help_flag(t) {
            scan(args, i + 1, m.with_help(true))
        } else if is_case_flag(t) {
            if i + 1 < args.len() {
                scan(args, i + 2, m.with_case_value(args[i + 1 as int]))
            } else {
                Some(m)
            }
        } else if is_filename_flag(t) {
            if i + 1 < args.len() {
                scan(args, i + 2, m.with_filename(args[i + 1 as int]))
            } else {
                None
            }
        } else if is_query_flag(t) {
            if i + 1 < args.len() {
                scan(args, i + 2, m.with_query(args[i + 1 as int]))
            } else {
                None
            }
        } else if i == 0 {
            scan(args, i + 1, m.with_query(t))
        } else if i == 1 {
            scan(args, i + 1, m.with_filename(t))
        } else {
            scan(args, i + 1, m)
        }
    }
}

/// The configuration that a command line asks for, or why there is none.
pub open spec fn parse_args(args: Seq<Seq<char>>) -> Result<ConfigModel, ErrorKind> {
    if args.len() == 0 {
        Err(ErrorKind::NotEnoughArgs)
    } else {
        match scan(args, 0, PartialModel::fresh()) {
            None => Err(ErrorKind::FailedParseArgs),
            Some(m) => m.finish(),
        }
    }
}

impl PartialEq for Config {
    /// Two configurations are equal when they agree field by field.
    fn eq(&self, other: &Config) -> (r: bool) {
        self.query.eq(&other.query) && self.filename.eq(&other.filename) && self.help == other.help
            && self.search_mode == other.search_mode
    }
}

impl vstd::std_specs::cmp::PartialEqSpecImpl for Config {
    open spec fn obeys_eq_spec() -> bool {
        true
    }

    open spec fn eq_spec(&self, other: &Config) -> bool {
        self@ == other@
    }
}

/// The model of a result that may hold a configuration.
pub open spec fn outcome(r: Result<Config, ErrorKind>) -> Result<ConfigModel, ErrorKind> {
    match r {
        Ok(c) => Ok(c@),
        Err(e) => Err(e),
    }
}

impl Config {
    /// A configuration always has a query and a file name.
    #[verifier::type_invariant]
    spec fn inv(&self) -> bool {
        self.query@.len() > 0 && self.filename@.len() > 0
    }

    /// A configuration from its parts; query and file name must not be empty.
    pub fn new(filename: String, query: String, help: bool, search_mode: SearchMode) -> (r: Config)
        requires
            query@.len() > 0,
            filename@.len() > 0,
        ensures
            r@ == (ConfigModel { query: query@, filename: filename@, help, search_mode }),
    {
        Config { filename, query, help, search_mode }
    }

    /// Reads a command line, program name left out, into a configuration.
    pub fn parse(args: &Vec<String>) -> (r: Result<Config, ErrorKind>)
        ensures
            outcome(r) == parse_args(texts(args@)),
            r matches Err(ErrorKind::NotEnoughArgs) <==> args@.len() == 0,
    {
        let ghost a = texts(args@);
        if args.len() < 1 {
            return Err(ErrorKind::NotEnoughArgs);
        }
        let mut config = DefaultConfig::new();
        let mut i: usize = 0;
        while i < args.len()
            invariant
                a == texts(args@),
                a.len() > 0,
                i <= args@.len(),
                scan(a, i as nat, config@) == scan(a, 0, PartialModel::fresh()),
            decreases args@.len() - i,
        {
            let arg = &args[i];
            let has_value = i + 1 < args.len();
            if is_token(arg, "--help", "-h") {
                config.set_help(true);
                i = i + 1;
            } else if is_token(arg, "--case-sensitive", "-c") {
                if has_value {
                    config.set_case_sensitive(args.get(i + 1));
                    i = i + 2;
                } else {
                    i = i + 1;
                }
            } else if is_token(arg, "--filename", "-f") {
                if !has_value {
                    return Err(ErrorKind::FailedParseArgs);
                }
                config.set_file(args.get(i + 1));
                i = i + 2;
            } else if is_token(arg, "--query", "-q") {
                if !has_value {
                    return Err(ErrorKind::FailedParseArgs);
                }
                config.set_query(args.get(i + 1));
                i = i + 2;
            } else {
                if i == 0 {
                    config.set_query(Some(arg));
                } else if i == 1 {
                    config.set_file(Some(arg));
                }
                i = i + 1;
            }
        }
        config.into_config()
    }

    pub fn get_help(&self) -> (r: bool)
        ensures
            r == self@.help,
    {
        self.help
    }

    pub fn get_filename(&self) -> (r: &str)
        ensures
            r@ == self@.filename,
            r@.len() > 0,
    {
        proof {
            use_type_invariant(self);
        }
        self.filename.as_str()
    }

    pub fn get_query(&self) -> (r: &str)
        ensures
            r@ == self@.query,
            r@.len() > 0,
    {
        proof {
            use_type_invariant(self);
        }
        self.query.as_str()
    }

    pub fn get_searchmode(&self) -> (r: &SearchMode)
        ensures
            *r == self@.search_mode,
    {
        &self.search_mode
    }
}

/// A query and a file name given by position, neither spelled like a flag,
/// give a configuration with exactly those two, no help, and case-insensitive
/// search.
pub proof fn lemma_positional(query: Seq<char>, filename: Seq<char>)
    requires
        query.len() > 0,
        filename.len() > 0,
        !is_flag(query),
        !is_flag(filename),
    ensures
        parse_args(seq![query, filename]) == Ok::<ConfigModel, ErrorKind>(
            ConfigModel {
                query,
                filename,
                help: false,
                search_mode: SearchMode::CaseInsensitive,
            },
        ),
{
    let args = seq![query, filename];
    let m = PartialModel::fresh().with_query(query).with_filename(filename);
    assert(args[0] == query && args[1] == filename);
    assert(scan(args, 2, m) == Some(m));
    assert(scan(args, 1, PartialModel::fresh().with_query(query)) == Some(m));
}

/// The spelling of the file name flag, long or short.
pub open spec fn filename_flag(long: bool) -> Seq<char> {
    if long {
        "--filename"@
    } else {
        "-f"@
    }
}

/// The spelling of the query flag, long or short.
pub open spec fn query_flag(long: bool) -> Seq<char> {
    if long {
        "--query"@
    } else {
        "-q"@
    }
}

proof fn lemma_flag_spellings()
    ensures
        forall|long: bool|
            is_filename_flag(#[trigger] filename_flag(long)) && !is_help_flag(filename_flag(long))
                && !is_case_flag(filename_flag(long)),
        forall|long: bool|
            is_query_flag(#[trigger] query_flag(long)) && !is_help_flag(query_flag(long))
                && !is_case_flag(query_flag(long)) && !is_filename_flag(query_flag(long)),
{
    reveal_strlit("--help");
    reveal_strlit("-h");
    reveal_strlit("--case-sensitive");
    reveal_strlit("-c");
    reveal_strlit("--filename");
    reveal_strlit("-f");
    reveal_strlit("--query");
    reveal_strlit("-q");
    assert("--help"@.len() == 6);
    assert("--case-sensitive"@.len() == 16);
    assert("--filename"@.len() == 10);
    assert("--query"@.len() == 7);
    assert("-h"@[1] == 'h');
    assert("-c"@[1] == 'c');
    assert("-f"@[1] == 'f');
    assert("-q"@[1] == 'q');
}

/// Giving the file name and then the query by flags, `[-f, filename, -q,
/// query]` or its long spelling, reads the same as giving them by position,
/// whatever comes of it.
pub proof fn lemma_flags_as_positional(query: Seq<char>, filename: Seq<char>, long: bool)
    requires
        !is_flag(query),
        !is_flag(filename),
    ensures
        parse_args(seq![filename_flag(long), filename, query_flag(long), query]) == parse_args(
            seq![query, filename],
        ),
{
    lemma_flag_spellings();
    let flags = seq![filename_flag(long), filename, query_flag(long), query];
    let m = PartialModel::fresh().with_filename(filename).with_query(query);
    assert(scan(flags, 4, m) == Some(m));
    assert(scan(flags, 2, PartialModel::fresh().with_filename(filename)) == Some(m));
    let positional = seq![query, filename];
    let n = PartialModel::fresh().with_query(query).with_filename(filename);
    assert(positional[0] == query && positional[1] == filename);
    assert(scan(positional, 2, n) == Some(n));
    assert(scan(positional, 1, PartialModel::fresh().with_query(query)) == Some(n));
    assert(m == n);
}

/// A configuration read from `[-q, query, -f, filename]` (or the long
/// spelling) and one read from `[query, filename]` are both made, and agree
/// field by field.
pub proof fn lemma_flags_round_trip(query: Seq<char>, filename: Seq<char>, long: bool)
    requires
        query.len() > 0,
        filename.len() > 0,
        !is_flag(query),
        !is_flag(filename),
    ensures
        parse_args(seq![query_flag(long), query, filename_flag(long), filename]) is Ok,
        parse_args(seq![query, filename]) is Ok,
        ({
            let by_flags = parse_args(
                seq![query_flag(long), query, filename_flag(long), filename],
            )->Ok_0;
            let by_position = parse_args(seq![query, filename])->Ok_0;
            &&& by_flags.query == by_position.query
            &&& by_flags.filename == by_position.filename
            &&& by_flags.help == by_position.help
            &&& by_flags.search_mode == by_position.search_mode
        }),
{
    lemma_flag_spellings();
    lemma_positional(query, filename);
    let flags = seq![query_flag(long), query, filename_flag(long), filename];
    let m = PartialModel::fresh().with_query(query).with_filename(filename);
    assert(scan(flags, 4, m) == Some(m));
    assert(scan(flags, 2, PartialModel::fresh().with_query(query)) == Some(m));
}

/// Whether `arg` is spelled `long` or `short`.
fn is_token(arg: &String, long: &str, short: &str) -> (r: bool)
    ensures
        r == (arg@ == long@ || arg@ == short@),
{
    same_text(arg.as_str(), long) || same_text(arg.as_str(), short)
}

} // verus!
