//! The command line: which options exist, what the arguments give, and what
//! the program is asked to do.

use crate::pattern::{combined, combined_pattern};
use getopts::{Fail, Matches, Options};
use vstd::prelude::*;

verus! {

#[verifier::external_type_specification]
#[verifier::external_body]
pub struct ExOptions(Options);

#[verifier::external_type_specification]
#[verifier::external_body]
pub struct ExMatches(Matches);

#[verifier::external_type_specification]
#[verifier::external_body]
pub struct ExFail(Fail);

/// One declared option: its names, its help text, and whether it takes a
/// value. An empty name stands for no name.
pub struct Declared {
    pub short_name: Seq<char>,
    pub long_name: Seq<char>,
    pub description: Seq<char>,
    pub hint: Seq<char>,
    pub takes_value: bool,
}

/// What the arguments gave for each option name: one entry for each time the
/// option occurred, with the value that came with it, if any.
pub type Given = Map<Seq<char>, Seq<Option<Seq<char>>>>;

/// The options that a `getopts::Options` holds, in the order of their
/// declaration.
pub uninterp spec fn declared_options(options: Options) -> Seq<Declared>;

/// What a `getopts::Matches` holds under each name that it can be asked
/// for: the occurrences of the option that has that name.
pub uninterp spec fn given_values(matches: Matches) -> Given;

/// The free arguments that a `getopts::Matches` holds, in order.
pub uninterp spec fn free_arguments(matches: Matches) -> Seq<Seq<char>>;

/// What `getopts` reads from `arguments` under the options `declared`, with
/// its default parsing style: what was given for each option name and the
/// free arguments, or `None` where the arguments do not fit the options.
pub uninterp spec fn parsed_arguments(
    declared: Seq<Declared>,
    arguments: Seq<Seq<char>>,
) -> Option<(Given, Seq<Seq<char>>)>;

/// The usage message that `getopts` derives from the options `declared` and
/// the line `brief`.
pub uninterp spec fn usage_text(declared: Seq<Declared>, brief: Seq<char>) -> Seq<char>;

/// The names that `getopts` accepts for an option: a short name is empty or
/// one ASCII character, a long name is empty or longer than one character.
pub open spec fn valid_names(short_name: Seq<char>, long_name: Seq<char>) -> bool {
    &&& short_name.len() <= 1
    &&& short_name.len() == 1 ==> '\0' <= short_name[0] <= '\u{7f}'
    &&& long_name.len() != 1
}

/// Every declared option has a name.
pub open spec fn all_named(declared: Seq<Declared>) -> bool {
    forall|i: int|
        0 <= i < declared.len() ==> (#[trigger] declared[i]).short_name.len()
            + declared[i].long_name.len() > 0
}

/// `given` has an entry for each name of each declared option.
pub open spec fn covers(given: Given, declared: Seq<Declared>) -> bool {
    forall|i: int|
        0 <= i < declared.len() ==> {
            &&& (#[trigger] declared[i]).short_name.len() > 0 ==> given.dom().contains(
                declared[i].short_name,
            )
            &&& declared[i].long_name.len() > 0 ==> given.dom().contains(declared[i].long_name)
        }
}

/// The value that came with the first occurrence of an option, if any.
pub open spec fn first_value(occurrences: Seq<Option<Seq<char>>>) -> Option<Seq<char>> {
    if occurrences.len() > 0 {
        occurrences[0]
    } else {
        None
    }
}

/// Calls `Options::new`: a set of options that holds none yet.
#[verifier::external_body]
fn new_options() -> (options: Options)
    ensures
        declared_options(options) == Seq::<Declared>::empty(),
{
    Options::new()
}

/// Calls `Options::optflag`, which panics on names it does not accept and
/// otherwise adds one option that takes no value and has no hint.
#[verifier::external_body]
fn declare_flag(options: &mut Options, short_name: &str, long_name: &str, description: &str)
    requires
        valid_names(short_name@, long_name@),
    ensures
        declared_options(*final(options)) == declared_options(*old(options)).push(
            (Declared {
                short_name: short_name@,
                long_name: long_name@,
                description: description@,
                hint: Seq::empty(),
                takes_value: false,
            }),
        ),
{
    options.optflag(short_name, long_name, description);
}

/// Calls `Options::optopt`, which panics on names it does not accept and
/// otherwise adds one option that takes a value.
#[verifier::external_body]
fn declare_value(
    options: &mut Options,
    short_name: &str,
    long_name: &str,
    description: &str,
    hint: &str,
)
    requires
        valid_names(short_name@, long_name@),
    ensures
        declared_options(*final(options)) == declared_options(*old(options)).push(
            (Declared {
                short_name: short_name@,
                long_name: long_name@,
                description: description@,
                hint: hint@,
                takes_value: true,
            }),
        ),
{
    options.optopt(short_name, long_name, description, hint);
}

/// Calls `Options::parse`, which panics on an option without a name. The
/// outcome depends on the declared options and the arguments alone. On
/// success the matches can be asked for each name of each declared option.
#[verifier::external_body]
fn parse_arguments(options: &Options, arguments: &Vec<String>) -> (parsed: Result<Matches, Fail>)
    requires
        all_named(declared_options(*options)),
    ensures
        parsed matches Ok(matches) ==> {
            &&& parsed_arguments(declared_options(*options), arguments.deep_view()) == Some(
                (given_values(matches), free_arguments(matches)),
            )
            &&& covers(given_values(matches), declared_options(*options))
        },
        parsed is Err ==> parsed_arguments(declared_options(*options), arguments.deep_view())
            is None,
{
    options.parse(arguments)
}

/// Calls `Matches::opt_present`, which panics on a name that no declared
/// option has and otherwise tells whether the option occurred.
#[verifier::external_body]
fn option_present(matches: &Matches, name: &str) -> (present: bool)
    requires
        given_values(*matches).dom().contains(name@),
    ensures
        present == (given_values(*matches)[name@].len() > 0),
{
    matches.opt_present(name)
}

/// Calls `Matches::opt_str`, which panics on a name that no declared option
/// has and otherwise returns the value that came with the first occurrence
/// of the option, if any.
#[verifier::external_body]
fn option_value(matches: &Matches, name: &str) -> (value: Option<String>)
    requires
        given_values(*matches).dom().contains(name@),
    ensures
        value.deep_view() == first_value(given_values(*matches)[name@]),
{
    matches.opt_str(name)
}

/// Copies the field `free` of a `getopts::Matches`.
#[verifier::external_body]
fn free_of(matches: &Matches) -> (free: Vec<String>)
    ensures
        free.deep_view() == free_arguments(*matches),
{
    matches.free.clone()
}

/// Calls `Options::usage`. The message depends on the declared options and
/// the brief alone.
#[verifier::external_body]
fn render_usage(options: &Options, brief: &str) -> (text: String)
    ensures
        text@ == usage_text(declared_options(*options), brief@),
{
    options.usage(brief)
}

/// The options of the program, in the order of their declaration.
pub open spec fn option_table() -> Seq<Declared> {
    seq![
        Declared {
            short_name: "i"@,
            long_name: "ignore-case"@,
            description: "Search case insensitively."@,
            hint: Seq::empty(),
            takes_value: false,
        },
        Declared {
            short_name: "s"@,
            long_name: "sensitive-case"@,
            description: "Search case sensitively [default]."@,
            hint: Seq::empty(),
            takes_value: false,
        },
        Declared {
            short_name: "h"@,
            long_name: "help"@,
            description: "Print this help menu."@,
            hint: Seq::empty(),
            takes_value: false,
        },
        Declared {
            short_name: "v"@,
            long_name: "version"@,
            description: "Print version."@,
            hint: Seq::empty(),
            takes_value: false,
        },
        Declared {
            short_name: ""@,
            long_name: "color"@,
            description: "Color output.\nWHEN can be never, always, or auto [default]."@,
            hint: "<WHEN>"@,
            takes_value: true,
        },
    ]
}

/// What the string literals that name the options hold.
proof fn lemma_option_names()
    ensures
        "i"@ == seq!['i'],
        "s"@ == seq!['s'],
        "h"@ == seq!['h'],
        "v"@ == seq!['v'],
        ""@ == Seq::<char>::empty(),
        "ignore-case"@.len() == 11,
        "sensitive-case"@.len() == 14,
        "help"@.len() == 4,
        "version"@.len() == 7,
        "color"@.len() == 5,
{
    reveal_strlit("i");
    reveal_strlit("s");
    reveal_strlit("h");
    reveal_strlit("v");
    reveal_strlit("");
    reveal_strlit("ignore-case");
    reveal_strlit("sensitive-case");
    reveal_strlit("help");
    reveal_strlit("version");
    reveal_strlit("color");
    assert("i"@ =~= seq!['i']);
    assert("s"@ =~= seq!['s']);
    assert("h"@ =~= seq!['h']);
    assert("v"@ =~= seq!['v']);
    assert(""@ =~= Seq::<char>::empty());
}

/// Declares the options of the program after those that `opts` holds.
pub fn add_options(opts: &mut Options)
    ensures
        declared_options(*final(opts)) == declared_options(*old(opts)) + option_table(),
{
    proof {
        lemma_option_names();
    }
    declare_flag(opts, "i", "ignore-case", "Search case insensitively.");
    declare_flag(opts, "s", "sensitive-case", "Search case sensitively [default].");
    declare_flag(opts, "h", "help", "Print this help menu.");
    declare_flag(opts, "v", "version", "Print version.");
    declare_value(
        opts,
        "",
        "color",
        "Color output.\nWHEN can be never, always, or auto [default].",
        "<WHEN>",
    );
    assert(declared_options(*opts) =~= declared_options(*old(opts)) + option_table());
}

/// What the arguments ask for, before anything is decided.
#[derive(Debug, PartialEq, Eq)]
pub struct Switches {
    /// `-h` or `--help` was given.
    pub help: bool,
    /// `-v` or `--version` was given.
    pub version: bool,
    /// `-i` or `--ignore-case` was given.
    pub ignore_case: bool,
    /// `-s` or `--sensitive-case` was given.
    pub sensitive_case: bool,
    /// The value given with `--color`, if any.
    pub color: Option<String>,
    /// The arguments that are no options: the expression, then the files.
    pub free: Vec<String>,
}

/// The mathematical view of `Switches`.
pub struct Scan {
    pub help: bool,
    pub version: bool,
    pub ignore_case: bool,
    pub sensitive_case: bool,
    pub color: Option<Seq<char>>,
    pub free: Seq<Seq<char>>,
}

impl View for Switches {
    type V = Scan;

    open spec fn view(&self) -> Scan {
        Scan {
            help: self.help,
            version: self.version,
            ignore_case: self.ignore_case,
            sensitive_case: self.sensitive_case,
            color: self.color.deep_view(),
            free: self.free.deep_view(),
        }
    }
}

/// Whether the option `name` occurred.
pub open spec fn occurred(given: Given, name: Seq<char>) -> bool {
    given.dom().contains(name) && given[name].len() > 0
}

/// What the arguments ask for, read off what `getopts` found.
pub open spec fn scan_of(given: Given, free: Seq<Seq<char>>) -> Scan {
    Scan {
        help: occurred(given, "h"@),
        version: occurred(given, "v"@),
        ignore_case: occurred(given, "i"@),
        sensitive_case: occurred(given, "s"@),
        color: if given.dom().contains("color"@) {
            first_value(given["color"@])
        } else {
            None
        },
        free,
    }
}

/// When matched paths are emphasised.
#[derive(Debug, Clone, Copy, PartialEq, Eq, Structural)]
pub enum ColorMode {
    Never,
    Always,
    /// Only when the output goes to an interactive terminal.
    Auto,
}

/// The color mode that a value of `--color` names, if it names one.
pub open spec fn color_mode_of(text: Seq<char>) -> Option<ColorMode> {
    if text == "never"@ {
        Some(ColorMode::Never)
    } else if text == "always"@ {
        Some(ColorMode::Always)
    } else if text == "auto"@ {
        Some(ColorMode::Auto)
    } else {
        None
    }
}

/// Whether matched paths are emphasised under `mode`.
pub open spec fn color_enabled(mode: ColorMode, stdout_is_terminal: bool) -> bool {
    match mode {
        ColorMode::Never => false,
        ColorMode::Always => true,
        ColorMode::Auto => stdout_is_terminal,
    }
}

/// Whether two texts hold the same characters.
fn same_text(left: &str, right: &str) -> (same: bool)
    ensures
        same == (left@ == right@),
{
    left.to_owned() == right.to_owned()
}

impl ColorMode {
    /// Reads a value of `--color`.
    pub fn parse(text: &str) -> (mode: Option<ColorMode>)
        ensures
            mode == color_mode_of(text@),
    {
        if same_text(text, "never") {
            Some(ColorMode::Never)
        } else if same_text(text, "always") {
            Some(ColorMode::Always)
        } else if same_text(text, "auto") {
            Some(ColorMode::Auto)
        } else {
            None
        }
    }

    /// Whether matched paths are emphasised under this mode.
    pub fn enabled(self, stdout_is_terminal: bool) -> (enabled: bool)
        ensures
            enabled == color_enabled(self, stdout_is_terminal),
    {
        match self {
            ColorMode::Never => false,
            ColorMode::Always => true,
            ColorMode::Auto => stdout_is_terminal,
        }
    }
}

/// Why the command line cannot be used.
#[derive(Debug, PartialEq, Eq)]
pub enum UsageError {
    /// The arguments do not fit the options.
    Unparseable,
    /// `--color` came with a value that names no color mode.
    UnknownColorMode(String),
    /// No expression was given.
    NoRegex,
    /// An expression was given, but no file.
    NoFiles,
}

/// What the program is asked to do.
#[derive(Debug, PartialEq, Eq)]
pub enum Invocation {
    /// Print the usage message and succeed.
    Help,
    /// Print the version and succeed.
    Version,
    /// Search the files for the expression.
    Search {
        /// The expression to compile, case directive included.
        regex: String,
        /// The inputs to search, in order.
        files: Vec<String>,
        /// Whether matched paths are emphasised.
        color_output: bool,
    },
    /// Report the error with the usage message and fail.
    Usage(UsageError),
}

/// The mathematical view of `Invocation`.
pub enum Decision {
    Help,
    Version,
    Search { regex: Seq<char>, files: Seq<Seq<char>>, color_output: bool },
    Unparseable,
    UnknownColorMode(Seq<char>),
    NoRegex,
    NoFiles,
}

impl View for Invocation {
    type V = Decision;

    open spec fn view(&self) -> Decision {
        match self {
            Invocation::Help => Decision::Help,
            Invocation::Version => Decision::Version,
            Invocation::Search { regex, files, color_output } => Decision::Search {
                regex: regex@,
                files: files.deep_view(),
                color_output: *color_output,
            },
            Invocation::Usage(UsageError::Unparseable) => Decision::Unparseable,
            Invocation::Usage(UsageError::UnknownColorMode(mode)) => Decision::UnknownColorMode(
                mode@,
            ),
            Invocation::Usage(UsageError::NoRegex) => Decision::NoRegex,
            Invocation::Usage(UsageError::NoFiles) => Decision::NoFiles,
        }
    }
}

/// What the program is asked to do, decided in this order: help, then
/// version, then the color mode, then the expression, then the files.
///
/// Without `--color` the mode is `Auto`. Case is ignored where that was
/// asked for and case sensitivity was not. The first free argument is the
/// expression, the others are the files.
pub open spec fn resolve(scan: Scan, stdout_is_terminal: bool) -> Decision {
    let mode = match scan.color {
        Some(text) => color_mode_of(text),
        None => Some(ColorMode::Auto),
    };
    if scan.help {
        Decision::Help
    } else if scan.version {
        Decision::Version
    } else if mode is None {
        Decision::UnknownColorMode(scan.color->0)
    } else if scan.free.len() == 0 {
        Decision::NoRegex
    } else if scan.free.len() == 1 {
        Decision::NoFiles
    } else {
        Decision::Search {
            regex: combined(scan.free[0], scan.ignore_case && !scan.sensitive_case),
            files: scan.free.skip(1),
            color_output: color_enabled(mode->0, stdout_is_terminal),
        }
    }
}

/// Decides what the program is asked to do.
pub fn resolve_options(switches: &Switches, stdout_is_terminal: bool) -> (outcome: Invocation)
    ensures
        outcome@ == resolve(switches@, stdout_is_terminal),
{
    if switches.help {
        return Invocation::Help;
    }
    if switches.version {
        return Invocation::Version;
    }
    let mode = match &switches.color {
        Some(text) => match ColorMode::parse(text.as_str()) {
            Some(mode) => mode,
            None => {
                return Invocation::Usage(UsageError::UnknownColorMode(text.clone()));
            },
        },
        None => ColorMode::Auto,
    };
    let color_output = mode.enabled(stdout_is_terminal);
    let ignore_case = switches.ignore_case && !switches.sensitive_case;
    if switches.free.len() == 0 {
        return Invocation::Usage(UsageError::NoRegex);
    }
    if switches.free.len() == 1 {
        return Invocation::Usage(UsageError::NoFiles);
    }
    let regex = combined_pattern(switches.free[0].as_str(), ignore_case);
    let mut files: Vec<String> = Vec::new();
    let mut i: usize = 1;
    while i < switches.free.len()
        invariant
            1 <= i <= switches.free.len(),
            files.len() == i - 1,
            forall|j: int| 0 <= j < files.len() ==> files[j]@ == switches.free[j + 1]@,
        decreases switches.free.len() - i,
    {
        files.push(switches.free[i].clone());
        i += 1;
    }
    assert(files.deep_view() =~= switches.free.deep_view().skip(1));
    Invocation::Search { regex, files, color_output }
}

/// What the program is asked to do for what `getopts` read from the
/// arguments.
pub open spec fn decide(
    parsed: Option<(Given, Seq<Seq<char>>)>,
    stdout_is_terminal: bool,
) -> Decision {
    match parsed {
        None => Decision::Unparseable,
        Some((given, free)) => resolve(scan_of(given, free), stdout_is_terminal),
    }
}

/// Reads the command line. `arguments` are the arguments after the
/// program's name; `stdout_is_terminal` tells whether the output goes to an
/// interactive terminal, which decides the color mode `auto`.
pub fn parse_options(arguments: &Vec<String>, stdout_is_terminal: bool) -> (outcome: Invocation)
    ensures
        outcome@ == decide(
            parsed_arguments(option_table(), arguments.deep_view()),
            stdout_is_terminal,
        ),
{
    let mut opts = new_options();
    add_options(&mut opts);
    proof {
        lemma_option_names();
        assert(declared_options(opts) =~= option_table());
    }
    let matches = match parse_arguments(&opts, arguments) {
        Ok(matches) => matches,
        Err(_) => {
            return Invocation::Usage(UsageError::Unparseable);
        },
    };
    proof {
        let table = option_table();
        assert(table[0].short_name == "i"@);
        assert(table[1].short_name == "s"@);
        assert(table[2].short_name == "h"@);
        assert(table[3].short_name == "v"@);
        assert(table[4].long_name == "color"@);
    }
    let switches = Switches {
        help: option_present(&matches, "h"),
        version: option_present(&matches, "v"),
        ignore_case: option_present(&matches, "i"),
        sensitive_case: option_present(&matches, "s"),
        color: option_value(&matches, "color"),
        free: free_of(&matches),
    };
    resolve_options(&switches, stdout_is_terminal)
}

/// The line that opens the usage message.
pub open spec fn usage_brief(program: Seq<char>) -> Seq<char> {
    "Usage: "@ + program + " <regex> <files> [options]"@
}

/// The usage message of the program run as `program`.
pub fn usage(program: &str) -> (text: String)
    ensures
        text@ == usage_text(option_table(), usage_brief(program@)),
{
    let mut opts = new_options();
    add_options(&mut opts);
    assert(declared_options(opts) =~= option_table());
    let mut brief = "Usage: ".to_owned();
    brief.append(program);
    brief.append(" <regex> <files> [options]");
    render_usage(&opts, brief.as_str())
}

/// The line that names a version of the program.
pub open spec fn version_line(version: Option<Seq<char>>) -> Seq<char> {
    "Ripjson v"@ + match version {
        Some(number) => number,
        None => "unknown"@,
    }
}

/// The line that `--version` prints, for the version the program was built
/// as, if that is known.
pub fn version_text(version: Option<&str>) -> (text: String)
    ensures
        text@ == version_line(
            match version {
                Some(number) => Some(number@),
                None => None,
            },
        ),
{
    let mut text = "Ripjson v".to_owned();
    match version {
        Some(number) => text.append(number),
        None => text.append("unknown"),
    }
    text
}

} // verus!
