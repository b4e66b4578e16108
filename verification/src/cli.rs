//! Non-interactive command line mode.
//!
//! `--apply` re-applies every enabled feature, `--revert` restores the archived
//! machine state, `--status` prints a read-only alignment report, `--plan`
//! shows what `--apply` would change and `--report` writes a diagnostic
//! snapshot. One-run overrides, such as `--mtu=1500`, change the config that
//! the action works on.

use vstd::prelude::*;

use crate::config;
use crate::config::{profile_name_error, valid_profile_name, Archive, Config, DnsProvider};
use crate::connections::TcpConnections;
use crate::dns::{DnsStatus, Resolvers};
use crate::interfaces::Interface;
use crate::ops::result_view;
use crate::paint::{dim, green, in_dim, in_green, in_yellow, yellow, RESET, YELLOW};
use crate::power;
use crate::power::{failures_tell_of_a_nic, nic_of, unread_of, Node};
use crate::registry::{failed, failures_tell_of_a_reading, read_failures, Seen, Snapshot};
use crate::system;
use crate::tcp::{TcpStatus, GLOBAL_SUBKEY};
use crate::text;
use crate::text::{decimal, digits_value, is_numeral, joined, numeral_digits, starts, views};

verus! {

/// Exit code for a successful apply / aligned status run.
pub const EXIT_OK: i32 = 0;

/// Exit code for a `--status` run that found drift.
pub const EXIT_DRIFT: i32 = 1;

/// Exit code for a run that hit an error.
pub const EXIT_ERROR: i32 = 2;

/// Parsed command line.
#[derive(Clone, Copy, Debug, PartialEq, Eq, Structural)]
pub enum Command {
    /// Show usage text.
    Help,
    /// Show the version.
    Version,
    /// Apply every enabled feature.
    Apply,
    /// Revert every archived feature and clear autostart.
    Revert,
    /// Print the alignment state read-only.
    Status,
    /// Dry-run: print what `--apply` would change, touch nothing.
    Plan,
    /// Write a diagnostic snapshot and print its path.
    Report,
    /// Create a System Restore point.
    RestorePoint,
    /// Undo the last apply: revert tweaks and restore the pre-apply archive.
    Undo,
    /// Manage named configuration profiles.
    Profile,
    /// Launch the interactive terminal menu.
    Interactive,
}

/// Named config profile operations.
#[derive(Debug, PartialEq, Eq)]
pub enum ProfileAction {
    /// Persist the current (override-resolved) config under a name.
    Save { name: String },
    /// Make a saved profile the active config and apply it.
    Apply { name: String },
    /// Print the saved profile names.
    List,
    /// Remove one profile.
    Delete { name: String },
}

/// A [`ProfileAction`] over texts.
pub enum ProfileOp {
    Save { name: Seq<char> },
    Apply { name: Seq<char> },
    List,
    Delete { name: Seq<char> },
}

impl View for ProfileAction {
    type V = ProfileOp;

    open spec fn view(&self) -> ProfileOp {
        match *self {
            ProfileAction::Save { name } => ProfileOp::Save { name: name@ },
            ProfileAction::Apply { name } => ProfileOp::Apply { name: name@ },
            ProfileAction::List => ProfileOp::List,
            ProfileAction::Delete { name } => ProfileOp::Delete { name: name@ },
        }
    }
}

/// The parsed arguments: one action plus optional one-run overrides.
#[derive(Debug, PartialEq, Eq)]
pub struct Options {
    /// The action to run, [`Command::Interactive`] when no action was given.
    pub command: Command,
    /// Whether the DNS feature is enabled for this run.
    pub dns: Option<bool>,
    /// The MTU target for this run (`None` disables the feature).
    pub mtu: Option<Option<u32>>,
    /// Whether the NIC power feature is enabled for this run.
    pub power: Option<bool>,
    /// Profile operation when `command` is [`Command::Profile`].
    pub profile: Option<ProfileAction>,
}

/// An [`Options`] over texts.
#[verifier::ext_equal]
pub struct Choice {
    pub command: Command,
    pub dns: Option<bool>,
    pub mtu: Option<Option<u32>>,
    pub power: Option<bool>,
    pub profile: Option<ProfileOp>,
}

impl View for Options {
    type V = Choice;

    open spec fn view(&self) -> Choice {
        Choice {
            command: self.command,
            dns: self.dns,
            mtu: self.mtu,
            power: self.power,
            profile: match self.profile {
                Some(action) => Some(action@),
                None => None,
            },
        }
    }
}

/// The arguments of an interactive run without overrides.
pub open spec fn no_choice() -> Choice {
    Choice { command: Command::Interactive, dns: None, mtu: None, power: None, profile: None }
}

impl Default for Options {
    fn default() -> (options: Self)
        ensures
            options@ == no_choice(),
    {
        Options { command: Command::Interactive, dns: None, mtu: None, power: None, profile: None }
    }
}

// ---------------------------------------------------------------------------
// Parsing
// ---------------------------------------------------------------------------

/// A request for the usage text.
pub open spec fn asks_help(arg: Seq<char>) -> bool {
    arg == "-h"@ || arg == "--help"@ || arg == "/?"@
}

/// A request for the version.
pub open spec fn asks_version(arg: Seq<char>) -> bool {
    arg == "-V"@ || arg == "--version"@
}

/// The action that a flag asks for.
pub open spec fn action_of(arg: Seq<char>) -> Option<Command> {
    if arg == "--apply"@ {
        Some(Command::Apply)
    } else if arg == "--revert"@ {
        Some(Command::Revert)
    } else if arg == "--status"@ {
        Some(Command::Status)
    } else if arg == "--plan"@ {
        Some(Command::Plan)
    } else if arg == "--report"@ {
        Some(Command::Report)
    } else if arg == "--restore-point"@ {
        Some(Command::RestorePoint)
    } else if arg == "--undo"@ {
        Some(Command::Undo)
    } else {
        None
    }
}

/// The value of the override `key` at argument `i`, in the form `key=value` or
/// `key value`. A flag is no value.
pub open spec fn override_at(args: Seq<Seq<char>>, i: int, key: Seq<char>) -> Option<Seq<char>> {
    if starts(args[i], key + "="@) {
        Some(args[i].skip((key + "="@).len() as int))
    } else if args[i] == key && i + 1 < args.len() && !starts(args[i + 1], "--"@) {
        Some(args[i + 1])
    } else {
        None
    }
}

/// What a boolean override says.
pub open spec fn bool_of(value: Seq<char>) -> Result<bool, Seq<char>> {
    if value == "on"@ || value == "true"@ || value == "1"@ || value == "yes"@ {
        Ok(true)
    } else if value == "off"@ || value == "false"@ || value == "0"@ || value == "no"@ {
        Ok(false)
    } else {
        Err("invalid boolean override '"@ + value + "', expected on/off"@)
    }
}

/// What an MTU override says.
pub open spec fn mtu_of(value: Seq<char>) -> Result<Option<u32>, Seq<char>> {
    if value == "off"@ || value == "default"@ || value == "0"@ {
        Ok(None)
    } else if is_numeral(value) && 1280 <= digits_value(numeral_digits(value)) <= 9000 {
        Ok(Some(digits_value(numeral_digits(value)) as u32))
    } else {
        Err("invalid mtu override '"@ + value + "', expected off or 1280..=9000"@)
    }
}

/// The profile name among the tokens after `--profile`, for the operation `op`.
pub open spec fn profile_name(tokens: Seq<Seq<char>>, op: Seq<char>) -> Result<
    Seq<char>,
    Seq<char>,
> {
    if tokens.len() < 2 || starts(tokens[1], "--"@) {
        Err("'"@ + op + "' needs a profile name: --profile "@ + op + " <name>"@)
    } else if !valid_profile_name(tokens[1]) {
        Err(profile_name_error(tokens[1]))
    } else {
        Ok(tokens[1])
    }
}

/// What the tokens after `--profile` ask for.
pub open spec fn profile_op(tokens: Seq<Seq<char>>) -> Result<ProfileOp, Seq<char>> {
    let op = if tokens.len() == 0 {
        ""@
    } else {
        tokens[0]
    };
    if op == "save"@ {
        match profile_name(tokens, op) {
            Ok(name) => Ok(ProfileOp::Save { name }),
            Err(e) => Err(e),
        }
    } else if op == "apply"@ {
        match profile_name(tokens, op) {
            Ok(name) => Ok(ProfileOp::Apply { name }),
            Err(e) => Err(e),
        }
    } else if op == "list"@ {
        Ok(ProfileOp::List)
    } else if op == "delete"@ {
        match profile_name(tokens, op) {
            Ok(name) => Ok(ProfileOp::Delete { name }),
            Err(e) => Err(e),
        }
    } else {
        Err("unknown profile operation '"@ + op + "', expected save | apply | list | delete"@)
    }
}

/// What one argument adds to the choice made so far. The first action flag
/// counts; overrides count wherever they stand, and of several for the same
/// key the last; of several `--profile` the first.
pub open spec fn choose_at(args: Seq<Seq<char>>, i: int, choice: Choice) -> Result<
    Choice,
    Seq<char>,
> {
    if let Some(action) = action_of(args[i]) {
        if choice.command == Command::Interactive {
            Ok(Choice { command: action, ..choice })
        } else {
            Ok(choice)
        }
    } else if let Some(value) = override_at(args, i, "--dns"@) {
        match bool_of(value) {
            Ok(b) => Ok(Choice { dns: Some(b), ..choice }),
            Err(e) => Err(e),
        }
    } else if let Some(value) = override_at(args, i, "--mtu"@) {
        match mtu_of(value) {
            Ok(m) => Ok(Choice { mtu: Some(m), ..choice }),
            Err(e) => Err(e),
        }
    } else if let Some(value) = override_at(args, i, "--power"@) {
        match bool_of(value) {
            Ok(b) => Ok(Choice { power: Some(b), ..choice }),
            Err(e) => Err(e),
        }
    } else if args[i] == "--profile"@ && choice.profile is None {
        match profile_op(args.skip(i + 1)) {
            Ok(op) => Ok(Choice { command: Command::Profile, profile: Some(op), ..choice }),
            Err(e) => Err(e),
        }
    } else {
        Ok(choice)
    }
}

/// The choice made by the first `n` arguments.
pub open spec fn choice_up_to(args: Seq<Seq<char>>, n: int) -> Result<Choice, Seq<char>>
    decreases n,
{
    if n <= 0 {
        Ok(no_choice())
    } else {
        match choice_up_to(args, n - 1) {
            Ok(choice) => choose_at(args, n - 1, choice),
            Err(e) => Err(e),
        }
    }
}

/// What the arguments ask for. A request for help, or for the version, wins
/// over everything else.
pub open spec fn parsed(args: Seq<Seq<char>>) -> Result<Choice, Seq<char>> {
    if exists|i: int| 0 <= i < args.len() && asks_help(#[trigger] args[i]) {
        Ok(Choice { command: Command::Help, ..no_choice() })
    } else if exists|i: int| 0 <= i < args.len() && asks_version(#[trigger] args[i]) {
        Ok(Choice { command: Command::Version, ..no_choice() })
    } else {
        choice_up_to(args, args.len() as int)
    }
}

/// Whether an argument asks for help, and whether one asks for the version.
fn early_flags(args: &[String]) -> (asked: (bool, bool))
    ensures
        asked.0 == exists|i: int|
            0 <= i < views(args@).len() && asks_help(#[trigger] views(args@)[i]),
        asked.1 == exists|i: int|
            0 <= i < views(args@).len() && asks_version(#[trigger] views(args@)[i]),
{
    let ghost shown = views(args@);
    let mut help = false;
    let mut version = false;
    let mut i: usize = 0;
    while i < args.len()
        invariant
            i <= args@.len(),
            shown == views(args@),
            help == exists|k: int| 0 <= k < i && asks_help(#[trigger] shown[k]),
            version == exists|k: int| 0 <= k < i && asks_version(#[trigger] shown[k]),
        decreases args@.len() - i,
    {
        let arg = args[i].as_str();
        assert(shown[i as int] == arg@);
        if text::same(arg, "-h") || text::same(arg, "--help") || text::same(arg, "/?") {
            help = true;
        }
        if text::same(arg, "-V") || text::same(arg, "--version") {
            version = true;
        }
        i = i + 1;
    }
    (help, version)
}

fn match_action(arg: &str) -> (action: Option<Command>)
    ensures
        action == action_of(arg@),
{
    if text::same(arg, "--apply") {
        Some(Command::Apply)
    } else if text::same(arg, "--revert") {
        Some(Command::Revert)
    } else if text::same(arg, "--status") {
        Some(Command::Status)
    } else if text::same(arg, "--plan") {
        Some(Command::Plan)
    } else if text::same(arg, "--report") {
        Some(Command::Report)
    } else if text::same(arg, "--restore-point") {
        Some(Command::RestorePoint)
    } else if text::same(arg, "--undo") {
        Some(Command::Undo)
    } else {
        None
    }
}

fn override_value(args: &[String], index: usize, key: &str) -> (value: Option<String>)
    requires
        index < args@.len(),
    ensures
        match value {
            Some(v) => override_at(views(args@), index as int, key@) == Some(v@),
            None => override_at(views(args@), index as int, key@) is None,
        },
{
    let arg = args[index].as_str();
    let prefix = key.to_owned().concat("=");
    if let Some(value) = text::strip_prefix(arg, prefix.as_str()) {
        return Some(value);
    }
    let count: usize = args.len();
    if text::same(arg, key) && index + 1 < count {
        let next = args[index + 1].as_str();
        if !text::starts_with(next, "--") {
            return Some(next.to_owned());
        }
    }
    None
}

fn parse_bool(value: &str) -> (b: Result<bool, String>)
    ensures
        result_view(b) == bool_of(value@),
{
    if text::same(value, "on") || text::same(value, "true") || text::same(value, "1")
        || text::same(value, "yes") {
        Ok(true)
    } else if text::same(value, "off") || text::same(value, "false") || text::same(value, "0")
        || text::same(value, "no") {
        Ok(false)
    } else {
        Err("invalid boolean override '".to_owned().concat(value).concat("', expected on/off"))
    }
}

fn parse_mtu(value: &str) -> (m: Result<Option<u32>, String>)
    ensures
        result_view(m) == mtu_of(value@),
{
    if text::same(value, "off") || text::same(value, "default") || text::same(value, "0") {
        return Ok(None);
    }
    if let Some(mtu) = text::parse_u32(value) {
        if 1280 <= mtu && mtu <= 9000 {
            return Ok(Some(mtu));
        }
    }
    Err(
        "invalid mtu override '".to_owned().concat(value).concat(
            "', expected off or 1280..=9000",
        ),
    )
}

/// The name token of a profile operation; `start` is the place of the
/// operation.
fn parse_profile_name(args: &[String], start: usize, op: &str) -> (name: Result<String, String>)
    requires
        start < args@.len(),
    ensures
        crate::ops::text_result_view(name) == profile_name(views(args@).skip(start as int), op@),
{
    let ghost tokens = views(args@).skip(start as int);
    let count: usize = args.len();
    if start + 1 < count {
        let name = args[start + 1].as_str();
        assert(tokens[1] == name@);
        if !text::starts_with(name, "--") {
            return match config::validate_profile_name(name) {
                Ok(_) => Ok(name.to_owned()),
                Err(e) => Err(e),
            };
        }
    }
    Err(
        "'".to_owned().concat(op).concat("' needs a profile name: --profile ").concat(op).concat(
            " <name>",
        ),
    )
}

/// Interprets the tokens after `--profile`, which start at `start`.
fn parse_profile(args: &[String], start: usize) -> (op: Result<ProfileAction, String>)
    requires
        start <= args@.len(),
    ensures
        match op {
            Ok(action) => profile_op(views(args@).skip(start as int)) == Ok::<
                ProfileOp,
                Seq<char>,
            >(action@),
            Err(e) => profile_op(views(args@).skip(start as int)) == Err::<ProfileOp, Seq<char>>(
                e@,
            ),
        },
{
    let ghost tokens = views(args@).skip(start as int);
    if start == args.len() {
        proof {
            reveal_strlit("");
            reveal_strlit("save");
            reveal_strlit("apply");
            reveal_strlit("list");
            reveal_strlit("delete");
            assert(""@.len() == 0 && "save"@.len() == 4 && "apply"@.len() == 5);
            assert("list"@.len() == 4 && "delete"@.len() == 6);
        }
        return Err(
            "unknown profile operation '".to_owned().concat("").concat(
                "', expected save | apply | list | delete",
            ),
        );
    }
    let op = args[start].as_str();
    assert(tokens[0] == op@);
    if text::same(op, "save") {
        match parse_profile_name(args, start, op) {
            Ok(name) => Ok(ProfileAction::Save { name }),
            Err(e) => Err(e),
        }
    } else if text::same(op, "apply") {
        match parse_profile_name(args, start, op) {
            Ok(name) => Ok(ProfileAction::Apply { name }),
            Err(e) => Err(e),
        }
    } else if text::same(op, "list") {
        Ok(ProfileAction::List)
    } else if text::same(op, "delete") {
        match parse_profile_name(args, start, op) {
            Ok(name) => Ok(ProfileAction::Delete { name }),
            Err(e) => Err(e),
        }
    } else {
        Err(
            "unknown profile operation '".to_owned().concat(op).concat(
                "', expected save | apply | list | delete",
            ),
        )
    }
}

/// Takes one argument into account. An error ends the parse.
fn parse_at(args: &[String], index: usize, options: &mut Options) -> (failure: Option<String>)
    requires
        index < args@.len(),
    ensures
        match failure {
            None => choose_at(views(args@), index as int, old(options)@) == Ok::<
                Choice,
                Seq<char>,
            >(final(options)@),
            Some(e) => choose_at(views(args@), index as int, old(options)@) == Err::<
                Choice,
                Seq<char>,
            >(e@),
        },
{
    let ghost before = options@;
    let arg = args[index].as_str();
    let count: usize = args.len();
    assert(views(args@)[index as int] == arg@);
    if let Some(action) = match_action(arg) {
        if options.command == Command::Interactive {
            options.command = action;
        }
        return None;
    }
    if let Some(value) = override_value(args, index, "--dns") {
        return match parse_bool(value.as_str()) {
            Ok(b) => {
                options.dns = Some(b);
                None
            },
            Err(e) => Some(e),
        };
    }
    if let Some(value) = override_value(args, index, "--mtu") {
        return match parse_mtu(value.as_str()) {
            Ok(m) => {
                options.mtu = Some(m);
                None
            },
            Err(e) => Some(e),
        };
    }
    if let Some(value) = override_value(args, index, "--power") {
        return match parse_bool(value.as_str()) {
            Ok(b) => {
                options.power = Some(b);
                None
            },
            Err(e) => Some(e),
        };
    }
    if text::same(arg, "--profile") && options.profile.is_none() {
        return match parse_profile(args, index + 1) {
            Ok(op) => {
                options.command = Command::Profile;
                options.profile = Some(op);
                None
            },
            Err(e) => Some(e),
        };
    }
    None
}

/// Interprets the argument list. `--help` / `--version` win over everything; of
/// the action flags the one listed first wins, otherwise the program runs
/// interactively. Overrides are collected wherever they appear. Malformed
/// override values are reported as errors.
pub fn parse(args: &[String]) -> (options: Result<Options, String>)
    ensures
        match options {
            Ok(o) => parsed(views(args@)) == Ok::<Choice, Seq<char>>(o@),
            Err(e) => parsed(views(args@)) == Err::<Choice, Seq<char>>(e@),
        },
{
    let mut options = Options::default();
    let (help, version) = early_flags(args);
    if help {
        options.command = Command::Help;
        return Ok(options);
    }
    if version {
        options.command = Command::Version;
        return Ok(options);
    }
    let ghost shown = views(args@);
    let mut index: usize = 0;
    while index < args.len()
        invariant
            index <= args@.len(),
            shown == views(args@),
            choice_up_to(shown, index as int) == Ok::<Choice, Seq<char>>(options@),
            parsed(shown) == choice_up_to(shown, shown.len() as int),
        decreases args@.len() - index,
    {
        if let Some(e) = parse_at(args, index, &mut options) {
            proof {
                error_is_final(shown, index + 1, shown.len() as int);
            }
            return Err(e);
        }
        index = index + 1;
    }
    Ok(options)
}

proof fn error_is_final(args: Seq<Seq<char>>, i: int, n: int)
    requires
        0 < i <= n,
        choice_up_to(args, i) is Err,
    ensures
        choice_up_to(args, n) == choice_up_to(args, i),
    decreases n,
{
    if i < n {
        error_is_final(args, i, n - 1);
    }
}

/// Asking for help wins over everything, also over malformed overrides.
pub proof fn help_wins(args: Seq<Seq<char>>, i: int)
    requires
        0 <= i < args.len(),
        asks_help(args[i]),
    ensures
        parsed(args) == Ok::<Choice, Seq<char>>(
            Choice { command: Command::Help, ..no_choice() },
        ),
{
}

/// Asking for the version wins over everything but a request for help.
pub proof fn version_wins(args: Seq<Seq<char>>, i: int)
    requires
        0 <= i < args.len(),
        asks_version(args[i]),
        forall|k: int| 0 <= k < args.len() ==> !asks_help(#[trigger] args[k]),
    ensures
        parsed(args) == Ok::<Choice, Seq<char>>(
            Choice { command: Command::Version, ..no_choice() },
        ),
{
}

/// Of the action flags the first one wins, whatever stands around it, unless a
/// profile operation is asked for.
pub proof fn first_action_wins(args: Seq<Seq<char>>, i: int, n: int)
    requires
        0 <= i < n <= args.len(),
        action_of(args[i]) is Some,
        forall|k: int| 0 <= k < i ==> action_of(#[trigger] args[k]) is None,
        forall|k: int| 0 <= k < n ==> (#[trigger] args[k]) != "--profile"@,
        choice_up_to(args, n) is Ok,
    ensures
        (choice_up_to(args, n)->Ok_0).command == action_of(args[i])->0,
    decreases n,
{
    if n - 1 > i {
        first_action_wins(args, i, n - 1);
        action_is_a_run(args[i]);
    } else {
        no_action_is_interactive(args, i);
    }
}

proof fn action_is_a_run(arg: Seq<char>)
    ensures
        action_of(arg) matches Some(a) ==> a != Command::Interactive,
{
}

/// Without an action flag and a profile operation the program runs
/// interactively.
pub proof fn no_action_is_interactive(args: Seq<Seq<char>>, n: int)
    requires
        0 <= n <= args.len(),
        forall|k: int| 0 <= k < n ==> action_of(#[trigger] args[k]) is None,
        forall|k: int| 0 <= k < n ==> (#[trigger] args[k]) != "--profile"@,
        choice_up_to(args, n) is Ok,
    ensures
        (choice_up_to(args, n)->Ok_0).command == Command::Interactive,
    decreases n,
{
    if n > 0 {
        no_action_is_interactive(args, n - 1);
    }
}

/// An MTU that an override sets is in the range that the MTU feature accepts.
pub proof fn override_mtu_is_in_range(value: Seq<char>, target: u32)
    requires
        mtu_of(value) == Ok::<Option<u32>, Seq<char>>(Some(target)),
    ensures
        crate::mtu::MIN_MTU <= target <= crate::mtu::MAX_MTU,
{
}

// ---------------------------------------------------------------------------
// Output
// ---------------------------------------------------------------------------

/// One printed line.
#[derive(Debug, PartialEq, Eq)]
pub enum Line {
    /// On the standard output.
    Out(String),
    /// On the error stream.
    Warn(String),
}

/// A [`Line`] over texts.
pub enum Shown {
    Out(Seq<char>),
    Warn(Seq<char>),
}

impl View for Line {
    type V = Shown;

    open spec fn view(&self) -> Shown {
        match *self {
            Line::Out(s) => Shown::Out(s@),
            Line::Warn(s) => Shown::Warn(s@),
        }
    }
}

/// Lines over texts.
pub open spec fn line_views(v: Seq<Line>) -> Seq<Shown> {
    Seq::new(v.len(), |i: int| v[i]@)
}

/// What a command prints, and its exit code.
#[derive(Debug, PartialEq, Eq)]
pub struct Printed {
    pub lines: Vec<Line>,
    pub code: i32,
}

fn say(lines: &mut Vec<Line>, text: String)
    ensures
        line_views(final(lines)@) == line_views(old(lines)@).push(Shown::Out(text@)),
{
    let ghost before = lines@;
    let ghost shown = text@;
    lines.push(Line::Out(text));
    assert(line_views(lines@) =~= line_views(before).push(Shown::Out(shown)));
}

/// The warning about an error.
pub open spec fn warning(error: Seq<char>) -> Seq<char> {
    YELLOW@ + "warning"@ + RESET@ + ": "@ + error
}

/// The warning about an error.
pub fn warning_text(error: &str) -> (s: String)
    ensures
        s@ == warning(error@),
{
    YELLOW.to_owned().concat("warning").concat(RESET).concat(": ").concat(error)
}

/// One warning per error, on the error stream.
pub open spec fn warnings(errors: Seq<Seq<char>>) -> Seq<Shown> {
    Seq::new(errors.len(), |i: int| Shown::Warn(warning(errors[i])))
}

fn warn_all(lines: &mut Vec<Line>, errors: &Vec<String>)
    ensures
        line_views(final(lines)@) == line_views(old(lines)@) + warnings(views(errors@)),
{
    let ghost before = line_views(lines@);
    let ghost all = views(errors@);
    let mut i: usize = 0;
    assert(before + warnings(all.take(0)) =~= before);
    while i < errors.len()
        invariant
            i <= errors@.len(),
            all == views(errors@),
            line_views(lines@) == before + warnings(all.take(i as int)),
        decreases errors@.len() - i,
    {
        let ghost so_far = lines@;
        lines.push(Line::Warn(warning_text(errors[i].as_str())));
        assert(line_views(lines@) =~= line_views(so_far).push(
            Shown::Warn(warning(errors@[i as int]@)),
        ));
        assert(line_views(lines@) =~= before + warnings(all.take(i + 1)));
        i = i + 1;
    }
    assert(all.take(all.len() as int) =~= all);
}

/// The exit code of a run with these errors.
pub open spec fn code_of(errors: Seq<Seq<char>>) -> i32 {
    if errors.len() == 0 {
        EXIT_OK
    } else {
        EXIT_ERROR
    }
}

/// Ends a run: every error is a warning, and any error makes it fail.
fn finish(lines: Vec<Line>, errors: &Vec<String>) -> (printed: Printed)
    ensures
        line_views(printed.lines@) == line_views(lines@) + warnings(views(errors@)),
        printed.code == code_of(views(errors@)),
{
    let mut lines = lines;
    warn_all(&mut lines, errors);
    let code: i32 = if errors.len() == 0 {
        EXIT_OK
    } else {
        EXIT_ERROR
    };
    Printed { lines, code }
}

/// How a provider is named on the command line.
pub open spec fn provider_text(provider: DnsProvider) -> Seq<char> {
    match provider {
        DnsProvider::Cloudflare => "cloudflare"@,
        DnsProvider::Google => "google"@,
        DnsProvider::Auto => "auto (cloudflare)"@,
    }
}

/// How a provider is named on the command line.
pub fn provider_label(provider: DnsProvider) -> (s: &'static str)
    ensures
        s@ == provider_text(provider),
{
    match provider {
        DnsProvider::Cloudflare => "cloudflare",
        DnsProvider::Google => "google",
        DnsProvider::Auto => "auto (cloudflare)",
    }
}

/// A switch as a word.
pub open spec fn switch_text(value: bool) -> Seq<char> {
    if value {
        "on"@
    } else {
        "off"@
    }
}

fn on_off(value: bool) -> (s: &'static str)
    ensures
        s@ == switch_text(value),
{
    if value {
        "on"
    } else {
        "off"
    }
}

/// Two counts as `a/b`.
pub open spec fn ratio_text(a: usize, b: usize) -> Seq<char> {
    decimal(a as nat) + "/"@ + decimal(b as nat)
}

/// Two counts as `a/b`.
pub fn ratio(a: usize, b: usize) -> (s: String)
    ensures
        s@ == ratio_text(a, b),
{
    let x = text::dec(a as u64);
    let y = text::dec(b as u64);
    x.concat("/").concat(y.as_str())
}

// ---------------------------------------------------------------------------
// The config of a run
// ---------------------------------------------------------------------------

/// The config with the overrides folded in.
pub open spec fn resolved(cfg: Config, choice: Choice) -> Config {
    Config {
        dns: match choice.dns {
            Some(dns) => dns,
            None => cfg.dns,
        },
        mtu: match choice.mtu {
            Some(mtu) => mtu,
            None => cfg.mtu,
        },
        power: match choice.power {
            Some(power) => power,
            None => cfg.power,
        },
        ..cfg
    }
}

/// The config this run acts on: the persisted one with the CLI overrides folded
/// in.
pub fn resolved_cfg(cfg: Config, options: &Options) -> (r: Config)
    ensures
        r == resolved(cfg, options@),
{
    let mut cfg = cfg;
    if let Some(dns) = options.dns {
        cfg.dns = dns;
    }
    if let Some(mtu) = options.mtu {
        cfg.mtu = mtu;
    }
    if let Some(power) = options.power {
        cfg.power = power;
    }
    cfg
}

/// True when no feature is enabled.
pub open spec fn is_idle(cfg: Config) -> bool {
    !cfg.tcp && !cfg.dns && !cfg.multimedia && cfg.mtu is None && !cfg.power
}

/// True when no feature is enabled.
pub fn nothing_enabled(cfg: &Config) -> (b: bool)
    ensures
        b == is_idle(*cfg),
{
    !cfg.tcp && !cfg.dns && !cfg.multimedia && cfg.mtu.is_none() && !cfg.power
}

/// True of the choices that change the machine.
pub open spec fn elevated(choice: Choice) -> bool {
    match choice.command {
        Command::Apply | Command::Revert | Command::RestorePoint | Command::Undo
        | Command::Interactive => true,
        Command::Profile => choice.profile matches Some(ProfileOp::Apply { .. }),
        _ => false,
    }
}

/// True when the action changes the machine, and so needs an elevated process.
pub fn needs_elevation(options: &Options) -> (b: bool)
    ensures
        b == elevated(options@),
        b == match options@.command {
            Command::Apply | Command::Revert | Command::RestorePoint | Command::Undo
            | Command::Interactive => true,
            Command::Profile => options@.profile matches Some(ProfileOp::Apply { .. }),
            _ => false,
        },
{
    match options.command {
        Command::Apply | Command::Revert | Command::RestorePoint | Command::Undo
        | Command::Interactive => true,
        Command::Profile => match &options.profile {
            Some(ProfileAction::Apply { .. }) => true,
            _ => false,
        },
        _ => false,
    }
}

// ---------------------------------------------------------------------------
// Apply and revert
// ---------------------------------------------------------------------------

/// How the apply runs of the features ended. Only those of enabled features
/// count.
#[derive(Debug)]
pub struct Applied {
    pub tcp: Result<TcpStatus, String>,
    /// The resolver set that DNS was switched to.
    pub resolvers: Resolvers,
    pub dns: Result<(), String>,
    pub throttling: Result<(), String>,
    pub mtu: Result<(), String>,
    pub power: Result<(), String>,
}

/// The message of a feature that failed, none of one that succeeded or is off.
pub open spec fn failure_of<T>(on: bool, label: Seq<char>, result: Result<T, String>) -> Seq<
    Seq<char>,
> {
    match result {
        Err(e) if on => seq![label + e@],
        _ => Seq::empty(),
    }
}

/// A line when the feature is on and succeeded.
pub open spec fn success_line<T>(on: bool, result: Result<T, String>, line: Seq<char>) -> Seq<
    Shown,
> {
    if on && result is Ok {
        seq![Shown::Out(line)]
    } else {
        Seq::empty()
    }
}

/// The line about tuned adapters.
pub open spec fn tuned_line(status: TcpStatus) -> Seq<char> {
    "tcp: tuned "@ + ratio_text(status.ifaces_ok, status.ifaces_total) + " ifaces, global ok"@
}

/// The line about the resolvers in use.
pub open spec fn switching_line(r: Resolvers) -> Seq<char> {
    "dns: switching to "@ + provider_text(r.provider) + " "@ + r.primary@ + " / "@ + r.secondary@
}

/// The line about the MTU.
pub open spec fn mtu_line(target: u32) -> Seq<char> {
    "mtu: "@ + decimal(target as nat) + " applied to all applicable adapters"@
}

/// What an apply prints: one line for each enabled feature that succeeded.
/// Switching the resolvers is told beforehand.
pub open spec fn apply_lines(cfg: Config, a: Applied) -> Seq<Shown> {
    success_line(
        cfg.tcp,
        a.tcp,
        match a.tcp {
            Ok(status) => tuned_line(status),
            Err(_) => Seq::empty(),
        },
    ) + (if cfg.dns {
        seq![Shown::Out(switching_line(a.resolvers))]
    } else {
        Seq::empty()
    }) + success_line(cfg.multimedia, a.throttling, "throttling: removed"@) + success_line(
        cfg.mtu is Some,
        a.mtu,
        match cfg.mtu {
            Some(target) => mtu_line(target),
            None => Seq::empty(),
        },
    ) + success_line(cfg.power, a.power, "power: nics told to stay on"@)
}

/// What an apply reports as failed.
pub open spec fn apply_errors(cfg: Config, a: Applied) -> Seq<Seq<char>> {
    failure_of(cfg.tcp, "tcp: "@, a.tcp) + failure_of(cfg.dns, "dns: "@, a.dns) + failure_of(
        cfg.multimedia,
        "throttling: "@,
        a.throttling,
    ) + failure_of(cfg.mtu is Some, "mtu: "@, a.mtu) + failure_of(cfg.power, "power: "@, a.power)
}

fn note_failure<T>(errors: &mut Vec<String>, on: bool, label: &str, result: &Result<T, String>)
    ensures
        views(final(errors)@) == views(old(errors)@) + failure_of(on, label@, *result),
{
    let ghost before = errors@;
    if on {
        if let Err(e) = result {
            errors.push(label.to_owned().concat(e.as_str()));
            assert(views(errors@) =~= views(before) + seq![label@ + e@]);
        }
    }
    assert(views(errors@) =~= views(before) + failure_of(on, label@, *result));
}

fn note_success<T>(lines: &mut Vec<Line>, on: bool, result: &Result<T, String>, line: String)
    ensures
        line_views(final(lines)@) == line_views(old(lines)@) + success_line(on, *result, line@),
{
    let ghost before = line_views(lines@);
    let ghost shown = line@;
    if on && result.is_ok() {
        say(lines, line);
    }
    assert(line_views(lines@) =~= before + success_line(on, *result, shown));
}

/// Reports how an apply run over every enabled feature went.
pub fn run_apply(cfg: &Config, applied: &Applied) -> (printed: Printed)
    ensures
        line_views(printed.lines@) == if is_idle(*cfg) {
            seq![
                Shown::Out(
                    "nothing enabled in the config; use the interactive menu to opt in."@,
                ),
            ]
        } else {
            apply_lines(*cfg, *applied) + warnings(apply_errors(*cfg, *applied))
        },
        printed.code == if is_idle(*cfg) {
            EXIT_OK
        } else {
            code_of(apply_errors(*cfg, *applied))
        },
{
    let mut lines: Vec<Line> = Vec::new();
    assert(line_views(lines@) =~= Seq::<Shown>::empty());
    if nothing_enabled(cfg) {
        say(
            &mut lines,
            "nothing enabled in the config; use the interactive menu to opt in.".to_owned(),
        );
        return Printed { lines, code: EXIT_OK };
    }
    let mut errors: Vec<String> = Vec::new();
    assert(views(errors@) =~= Seq::<Seq<char>>::empty());
    let tuned = match &applied.tcp {
        Ok(status) => {
            let counts = ratio(status.ifaces_ok, status.ifaces_total);
            "tcp: tuned ".to_owned().concat(counts.as_str()).concat(" ifaces, global ok")
        },
        Err(_) => String::new(),
    };
    assert(tuned@ =~= match applied.tcp {
        Ok(status) => tuned_line(status),
        Err(_) => Seq::empty(),
    });
    note_success(&mut lines, cfg.tcp, &applied.tcp, tuned);
    note_failure(&mut errors, cfg.tcp, "tcp: ", &applied.tcp);
    if cfg.dns {
        let r = applied.resolvers;
        say(
            &mut lines,
            "dns: switching to ".to_owned().concat(provider_label(r.provider)).concat(" ").concat(
                r.primary,
            ).concat(" / ").concat(r.secondary),
        );
    }
    note_failure(&mut errors, cfg.dns, "dns: ", &applied.dns);
    note_success(
        &mut lines,
        cfg.multimedia,
        &applied.throttling,
        "throttling: removed".to_owned(),
    );
    note_failure(&mut errors, cfg.multimedia, "throttling: ", &applied.throttling);
    let sized = match cfg.mtu {
        Some(target) => {
            let number = text::dec(target as u64);
            "mtu: ".to_owned().concat(number.as_str()).concat(
                " applied to all applicable adapters",
            )
        },
        None => String::new(),
    };
    assert(sized@ =~= match cfg.mtu {
        Some(target) => mtu_line(target),
        None => Seq::empty(),
    });
    note_success(&mut lines, cfg.mtu.is_some(), &applied.mtu, sized);
    note_failure(&mut errors, cfg.mtu.is_some(), "mtu: ", &applied.mtu);
    note_success(
        &mut lines,
        cfg.power,
        &applied.power,
        "power: nics told to stay on".to_owned(),
    );
    note_failure(&mut errors, cfg.power, "power: ", &applied.power);
    proof {
        assert(line_views(lines@) =~= apply_lines(*cfg, *applied));
        assert(views(errors@) =~= apply_errors(*cfg, *applied));
    }
    finish(lines, &errors)
}

/// How the reverts ended, and how autostart was cleared where it was set.
#[derive(Debug)]
pub struct Reverted {
    pub mtu: Result<(), String>,
    pub throttling: Result<(), String>,
    pub power: Result<(), String>,
    pub tcp: Result<(), String>,
    pub dns: Result<(), String>,
    pub autostart: Result<(), String>,
}

/// What a revert reports as failed.
pub open spec fn revert_errors(r: Reverted) -> Seq<Seq<char>> {
    failure_of(true, "mtu: "@, r.mtu) + failure_of(true, "throttling: "@, r.throttling)
        + failure_of(true, "power: "@, r.power) + failure_of(true, "tcp: "@, r.tcp) + failure_of(
        true,
        "dns: "@,
        r.dns,
    ) + failure_of(true, "autostart: "@, r.autostart)
}

/// Reports how the restore of everything the program has applied went.
pub fn run_revert(reverted: &Reverted) -> (printed: Printed)
    ensures
        line_views(printed.lines@) == seq![Shown::Out("system restored."@)] + warnings(
            revert_errors(*reverted),
        ),
        printed.code == code_of(revert_errors(*reverted)),
{
    let mut errors: Vec<String> = Vec::new();
    assert(views(errors@) =~= Seq::<Seq<char>>::empty());
    note_failure(&mut errors, true, "mtu: ", &reverted.mtu);
    note_failure(&mut errors, true, "throttling: ", &reverted.throttling);
    note_failure(&mut errors, true, "power: ", &reverted.power);
    note_failure(&mut errors, true, "tcp: ", &reverted.tcp);
    note_failure(&mut errors, true, "dns: ", &reverted.dns);
    note_failure(&mut errors, true, "autostart: ", &reverted.autostart);
    assert(views(errors@) =~= revert_errors(*reverted));
    let mut lines: Vec<Line> = Vec::new();
    assert(line_views(lines@) =~= Seq::<Shown>::empty());
    say(&mut lines, "system restored.".to_owned());
    assert(line_views(lines@) =~= seq![Shown::Out("system restored."@)]);
    finish(lines, &errors)
}

/// True when nothing is left to restore.
pub fn drained(archive: &Archive) -> (b: bool)
    ensures
        b == (archive@.dns.len() == 0 && archive@.values.len() == 0),
{
    archive.dns.len() == 0 && archive.values.len() == 0
}

/// What the second half of an undo tells.
pub open spec fn undo_text(restored: Option<Seq<char>>) -> Seq<char> {
    match restored {
        Some(name) => "archive restored from "@ + name,
        None => "no archive snapshot to restore; tweaks were reverted."@,
    }
}

/// Reports the second half of an undo: the archive snapshot that was put back,
/// if any. The exit code is that of the revert.
pub fn run_undo(code: i32, restored: &Option<String>) -> (printed: Printed)
    ensures
        line_views(printed.lines@) == seq![
            Shown::Out(
                undo_text(
                    match *restored {
                        Some(name) => Some(name@),
                        None => None,
                    },
                ),
            ),
        ],
        line_views(printed.lines@) == seq![
            Shown::Out(
                match *restored {
                    Some(name) => "archive restored from "@ + name@,
                    None => "no archive snapshot to restore; tweaks were reverted."@,
                },
            ),
        ],
        printed.code == code,
{
    let mut lines: Vec<Line> = Vec::new();
    assert(line_views(lines@) =~= Seq::<Shown>::empty());
    match restored {
        Some(name) => say(&mut lines, "archive restored from ".to_owned().concat(name.as_str())),
        None => say(
            &mut lines,
            "no archive snapshot to restore; tweaks were reverted.".to_owned(),
        ),
    }
    Printed { lines, code }
}

/// The description of a restore point.
pub fn restore_point_label() -> (label: String)
    ensures
        label@ == "stabilizatores before tweaks v"@ + crate::VERSION@,
{
    "stabilizatores before tweaks v".to_owned().concat(crate::VERSION)
}

/// Reports how the creation of a restore point went.
pub fn run_restore_point(created: &Result<(), String>) -> (printed: Printed)
    ensures
        line_views(printed.lines@) == seq![
            Shown::Out(
                match *created {
                    Ok(_) => "restore point created."@,
                    Err(e) => warning(e@),
                },
            ),
        ],
        printed.code == if *created is Ok {
            EXIT_OK
        } else {
            EXIT_ERROR
        },
{
    let mut lines: Vec<Line> = Vec::new();
    assert(line_views(lines@) =~= Seq::<Shown>::empty());
    match created {
        Ok(_) => {
            say(&mut lines, "restore point created.".to_owned());
            Printed { lines, code: EXIT_OK }
        },
        Err(e) => {
            say(&mut lines, warning_text(e.as_str()));
            Printed { lines, code: EXIT_ERROR }
        },
    }
}

// ---------------------------------------------------------------------------
// Status
// ---------------------------------------------------------------------------

/// The state of the machine that a status report is about.
#[derive(Debug)]
pub struct Observed {
    /// Number of physical adapters.
    pub physical: usize,
    /// Number of active adapters.
    pub active: usize,
    pub tcp: TcpStatus,
    pub resolvers: Resolvers,
    pub dns: DnsStatus,
    /// The throttling is removed.
    pub throttling: bool,
    /// The adapters report the MTU target.
    pub mtu: bool,
    /// The NICs disallow power-down.
    pub power: bool,
    pub connections: TcpConnections,
    /// What could not be read.
    pub failures: Vec<String>,
}

/// True when every enabled feature is in its target state.
pub open spec fn all_aligned(cfg: Config, o: Observed) -> bool {
    &&& !cfg.tcp || o.tcp.is_aligned()
    &&& !cfg.dns || o.dns.is_aligned()
    &&& !cfg.multimedia || o.throttling
    &&& cfg.mtu is None || o.mtu
    &&& !cfg.power || o.power
}

/// The state of the TCP tuning in words.
pub open spec fn tcp_text(cfg: Config, s: TcpStatus) -> Seq<char> {
    if !cfg.tcp {
        in_dim("off"@)
    } else if s.is_aligned() {
        in_green("tuned "@ + ratio_text(s.ifaces_ok, s.ifaces_total) + " ifaces, global ok"@)
    } else if s.ifaces_total == 0 {
        in_yellow("no applicable interfaces"@)
    } else {
        in_yellow("pending ("@ + ratio_text(s.ifaces_ok, s.ifaces_total) + " ifaces)"@)
    }
}

/// The state of the DNS feature in words.
pub open spec fn dns_text(cfg: Config, s: DnsStatus) -> Seq<char> {
    let counts = ratio_text(s.aligned, s.total) + " aligned"@;
    if !cfg.dns {
        in_dim("off"@)
    } else if s.is_aligned() {
        in_green(counts)
    } else {
        in_yellow(counts)
    }
}

/// The state of a feature that is off, done or pending.
pub open spec fn switch_state(on: bool, done: bool, text: Seq<char>) -> Seq<char> {
    if !on {
        in_dim("off"@)
    } else if done {
        in_green(text)
    } else {
        in_yellow("pending"@)
    }
}

/// The state of the MTU feature in words.
pub open spec fn mtu_text(cfg: Config, done: bool) -> Seq<char> {
    match cfg.mtu {
        None => in_dim("off"@),
        Some(target) => if done {
            in_green(decimal(target as nat) + " aligned"@)
        } else {
            in_yellow(decimal(target as nat) + " pending"@)
        },
    }
}

/// The body of a status report.
pub open spec fn status_lines(cfg: Config, o: Observed) -> Seq<Shown> {
    seq![
        Shown::Out(
            in_dim("interfaces"@) + "  "@ + decimal(o.physical as nat) + " physical, "@ + decimal(
                o.active as nat,
            ) + " active"@,
        ),
        Shown::Out(in_dim("tcp"@) + "         "@ + tcp_text(cfg, o.tcp)),
        Shown::Out(
            in_dim("dns"@) + "         "@ + provider_text(o.resolvers.provider) + " ("@
                + o.resolvers.primary@ + "/"@ + o.resolvers.secondary@ + "): "@ + dns_text(
                cfg,
                o.dns,
            ),
        ),
        Shown::Out(
            in_dim("throttling"@) + "  "@ + switch_state(
                cfg.multimedia,
                o.throttling,
                "removed"@,
            ),
        ),
        Shown::Out(in_dim("mtu"@) + "         "@ + mtu_text(cfg, o.mtu)),
        Shown::Out(
            in_dim("power"@) + "       "@ + switch_state(cfg.power, o.power, "no power-down"@),
        ),
        Shown::Out(
            in_dim("connections"@) + " "@ + decimal(o.connections.total as nat) + " total, "@
                + decimal(o.connections.established as nat) + " established, "@ + decimal(
                o.connections.time_wait as nat,
            ) + " time-wait"@,
        ),
    ]
}

/// The drift that is warned about.
pub open spec fn drift_errors(cfg: Config, o: Observed) -> Seq<Seq<char>> {
    (match cfg.mtu {
        Some(target) => if o.mtu {
            Seq::empty()
        } else {
            seq!["mtu: adapters not at "@ + decimal(target as nat)]
        },
        None => Seq::empty(),
    }) + if cfg.power && !o.power {
        seq!["power: some NICs may still power down"@]
    } else {
        Seq::empty()
    }
}

/// The end of a status report, and its exit code. A state that could not be
/// read is an error; otherwise the machine is aligned or has drifted.
pub open spec fn status_end(cfg: Config, o: Observed) -> (Seq<Shown>, i32) {
    let overall = in_dim("overall"@) + "      "@;
    if is_idle(cfg) {
        (seq![Shown::Out(overall + "nothing enabled"@)], EXIT_OK)
    } else {
        let warned = warnings(drift_errors(cfg, o));
        if o.failures@.len() > 0 {
            (warned + warnings(views(o.failures@)), EXIT_ERROR)
        } else if all_aligned(cfg, o) {
            (warned.push(Shown::Out(overall + "all aligned"@)), EXIT_OK)
        } else {
            (warned.push(Shown::Out(overall + "drift detected"@)), EXIT_DRIFT)
        }
    }
}

fn counted(label: &str, a: usize, b: usize, end: &str) -> (s: String)
    ensures
        s@ == label@ + ratio_text(a, b) + end@,
{
    let counts = ratio(a, b);
    label.to_owned().concat(counts.as_str()).concat(end)
}

fn tcp_state(cfg: &Config, s: &TcpStatus) -> (text: String)
    ensures
        text@ == tcp_text(*cfg, *s),
{
    if !cfg.tcp {
        dim("off")
    } else if s.aligned() {
        let counts = counted("tuned ", s.ifaces_ok, s.ifaces_total, " ifaces, global ok");
        green(counts.as_str())
    } else if s.ifaces_total == 0 {
        yellow("no applicable interfaces")
    } else {
        let counts = counted("pending (", s.ifaces_ok, s.ifaces_total, " ifaces)");
        yellow(counts.as_str())
    }
}

fn dns_state(cfg: &Config, s: &DnsStatus) -> (text: String)
    ensures
        text@ == dns_text(*cfg, *s),
{
    let counts = ratio(s.aligned, s.total).concat(" aligned");
    if !cfg.dns {
        dim("off")
    } else if s.aligned_all() {
        green(counts.as_str())
    } else {
        yellow(counts.as_str())
    }
}

fn state(on: bool, done: bool, text: &str) -> (s: String)
    ensures
        s@ == switch_state(on, done, text@),
{
    if !on {
        dim("off")
    } else if done {
        green(text)
    } else {
        yellow("pending")
    }
}

fn mtu_state(cfg: &Config, done: bool) -> (text: String)
    ensures
        text@ == mtu_text(*cfg, done),
{
    match cfg.mtu {
        None => dim("off"),
        Some(target) => {
            let number = text::dec(target as u64);
            if done {
                let words = number.concat(" aligned");
                green(words.as_str())
            } else {
                let words = number.concat(" pending");
                yellow(words.as_str())
            }
        },
    }
}

fn aligned(cfg: &Config, o: &Observed) -> (b: bool)
    ensures
        b == all_aligned(*cfg, *o),
{
    (!cfg.tcp || o.tcp.aligned()) && (!cfg.dns || o.dns.aligned_all()) && (!cfg.multimedia
        || o.throttling) && (cfg.mtu.is_none() || o.mtu) && (!cfg.power || o.power)
}

fn drift(cfg: &Config, o: &Observed) -> (errors: Vec<String>)
    ensures
        views(errors@) == drift_errors(*cfg, *o),
{
    let mut errors: Vec<String> = Vec::new();
    if let Some(target) = cfg.mtu {
        if !o.mtu {
            let number = text::dec(target as u64);
            errors.push("mtu: adapters not at ".to_owned().concat(number.as_str()));
        }
    }
    if cfg.power && !o.power {
        errors.push("power: some NICs may still power down".to_owned());
    }
    assert(views(errors@) =~= drift_errors(*cfg, *o));
    errors
}

/// Prints the current alignment report. `EXIT_OK` when everything is aligned,
/// `EXIT_DRIFT` when something drifted, `EXIT_ERROR` when a state could not be
/// read.
pub fn run_status(cfg: &Config, observed: &Observed) -> (printed: Printed)
    ensures
        line_views(printed.lines@) == status_lines(*cfg, *observed) + status_end(
            *cfg,
            *observed,
        ).0,
        printed.code == status_end(*cfg, *observed).1,
{
    let mut lines: Vec<Line> = Vec::new();
    assert(line_views(lines@) =~= Seq::<Shown>::empty());
    let o = observed;
    let physical = text::dec(o.physical as u64);
    let active = text::dec(o.active as u64);
    say(
        &mut lines,
        dim("interfaces").concat("  ").concat(physical.as_str()).concat(" physical, ").concat(
            active.as_str(),
        ).concat(" active"),
    );
    let tcp = tcp_state(cfg, &o.tcp);
    say(&mut lines, dim("tcp").concat("         ").concat(tcp.as_str()));
    let dns = dns_state(cfg, &o.dns);
    say(
        &mut lines,
        dim("dns").concat("         ").concat(provider_label(o.resolvers.provider)).concat(
            " (",
        ).concat(o.resolvers.primary).concat("/").concat(o.resolvers.secondary).concat(
            "): ",
        ).concat(dns.as_str()),
    );
    let throttling = state(cfg.multimedia, o.throttling, "removed");
    say(&mut lines, dim("throttling").concat("  ").concat(throttling.as_str()));
    let mtu = mtu_state(cfg, o.mtu);
    say(&mut lines, dim("mtu").concat("         ").concat(mtu.as_str()));
    let power = state(cfg.power, o.power, "no power-down");
    say(&mut lines, dim("power").concat("       ").concat(power.as_str()));
    let total = text::dec(o.connections.total as u64);
    let established = text::dec(o.connections.established as u64);
    let time_wait = text::dec(o.connections.time_wait as u64);
    say(
        &mut lines,
        dim("connections").concat(" ").concat(total.as_str()).concat(" total, ").concat(
            established.as_str(),
        ).concat(" established, ").concat(time_wait.as_str()).concat(" time-wait"),
    );
    assert(line_views(lines@) =~= status_lines(*cfg, *o));
    let ghost body = line_views(lines@);
    let overall = dim("overall").concat("      ");
    if nothing_enabled(cfg) {
        say(&mut lines, overall.concat("nothing enabled"));
        assert(line_views(lines@) =~= body + status_end(*cfg, *o).0);
        return Printed { lines, code: EXIT_OK };
    }
    let errors = drift(cfg, o);
    warn_all(&mut lines, &errors);
    if o.failures.len() > 0 {
        warn_all(&mut lines, &o.failures);
        assert(line_views(lines@) =~= body + status_end(*cfg, *o).0);
        return Printed { lines, code: EXIT_ERROR };
    }
    let (label, code) = if aligned(cfg, o) {
        ("all aligned", EXIT_OK)
    } else {
        ("drift detected", EXIT_DRIFT)
    };
    say(&mut lines, overall.concat(label));
    assert(line_views(lines@) =~= body + status_end(*cfg, *o).0);
    Printed { lines, code }
}

/// These messages, where the feature is enabled.
pub open spec fn if_enabled(on: bool, messages: Seq<Seq<char>>) -> Seq<Seq<char>> {
    if on {
        messages
    } else {
        Seq::empty()
    }
}

/// True when a feature is enabled whose state is that of the adapters.
pub open spec fn needs_adapters(cfg: Config) -> bool {
    cfg.tcp || cfg.dns || cfg.mtu is Some
}

/// The failure of an enumeration of the adapters.
pub open spec fn unlisted(adapters: Result<Vec<Interface>, String>) -> Seq<Seq<char>> {
    match adapters {
        Ok(_) => Seq::empty(),
        Err(e) => seq!["read adapters: "@ + e@],
    }
}

/// What could not be read of the enabled features. A value of an adapter whose
/// key is not readable does not count.
pub open spec fn unread(
    cfg: Config,
    adapters: Result<Vec<Interface>, String>,
    tcp: Seen,
    system: Seen,
    mtu: Seen,
    nodes: Result<Vec<Node>, String>,
) -> Seq<Seq<char>> {
    if_enabled(needs_adapters(cfg), unlisted(adapters)) + if_enabled(
        cfg.tcp,
        read_failures(tcp.values, tcp.keys, Some(GLOBAL_SUBKEY@)),
    ) + if_enabled(
        cfg.multimedia,
        read_failures(system.values, system.keys, Some(system::SUBKEY@)),
    ) + if_enabled(cfg.mtu is Some, read_failures(mtu.values, mtu.keys, None)) + if_enabled(
        cfg.power,
        unread_of(nodes),
    )
}

/// What could not be read of the enabled features.
pub fn unreadable(
    cfg: &Config,
    adapters: &Result<Vec<Interface>, String>,
    tcp: &Snapshot,
    system: &Snapshot,
    mtu: &Snapshot,
    nodes: &Result<Vec<Node>, String>,
) -> (failures: Vec<String>)
    ensures
        views(failures@) == unread(*cfg, *adapters, tcp@, system@, mtu@, *nodes),
{
    let mut failures: Vec<String> = Vec::new();
    if let (true, Err(e)) = (cfg.tcp || cfg.dns || cfg.mtu.is_some(), adapters) {
        failures.push("read adapters: ".to_owned().concat(e.as_str()));
    }
    assert(views(failures@) =~= if_enabled(needs_adapters(*cfg), unlisted(*adapters)));
    extend_if(cfg.tcp, &mut failures, &tcp.failures(Some(GLOBAL_SUBKEY)));
    extend_if(cfg.multimedia, &mut failures, &system.failures(Some(system::SUBKEY)));
    extend_if(cfg.mtu.is_some(), &mut failures, &mtu.failures(None));
    extend_if(cfg.power, &mut failures, &power::unread(nodes));
    assert(views(failures@) =~= unread(*cfg, *adapters, tcp@, system@, mtu@, *nodes));
    failures
}

fn extend_if(on: bool, list: &mut Vec<String>, more: &Vec<String>)
    ensures
        views(final(list)@) == views(old(list)@) + if_enabled(on, views(more@)),
{
    if on {
        text::extend(list, more);
    } else {
        assert(views(list@) + Seq::<Seq<char>>::empty() =~= views(list@));
    }
}

/// Something of an enabled feature could not be read: the adapters, a value of a
/// key that counts, or a driver node.
pub open spec fn blind(
    cfg: Config,
    adapters: Result<Vec<Interface>, String>,
    tcp: Seen,
    system: Seen,
    mtu: Seen,
    nodes: Result<Vec<Node>, String>,
) -> bool {
    ||| needs_adapters(cfg) && adapters is Err
    ||| cfg.tcp && exists|i: int|
        0 <= i < tcp.values.len() && failed(
            #[trigger] tcp.values[i],
            tcp.keys,
            Some(GLOBAL_SUBKEY@),
        )
    ||| cfg.multimedia && exists|i: int|
        0 <= i < system.values.len() && failed(
            #[trigger] system.values[i],
            system.keys,
            Some(system::SUBKEY@),
        )
    ||| cfg.mtu is Some && exists|i: int|
        0 <= i < mtu.values.len() && failed(#[trigger] mtu.values[i], mtu.keys, None)
    ||| cfg.power && (match nodes {
        Err(_) => true,
        Ok(v) => exists|i: int|
            0 <= i < v@.len() && nic_of(#[trigger] v@[i]) is Some && v@[i].value is Err,
    })
}

/// The exit code of a status report says what it found: 0 exactly when every
/// enabled feature was read and is aligned, 1 exactly when everything was read
/// and something drifted, 2 exactly when something could not be read.
pub proof fn status_code_tells_the_state(
    cfg: Config,
    o: Observed,
    adapters: Result<Vec<Interface>, String>,
    tcp: Seen,
    system: Seen,
    mtu: Seen,
    nodes: Result<Vec<Node>, String>,
)
    requires
        !is_idle(cfg),
        views(o.failures@) == unread(cfg, adapters, tcp, system, mtu, nodes),
    ensures
        ({
            let unseen = blind(cfg, adapters, tcp, system, mtu, nodes);
            let code = status_end(cfg, o).1;
            &&& code == EXIT_OK <==> !unseen && all_aligned(cfg, o)
            &&& code == EXIT_DRIFT <==> !unseen && !all_aligned(cfg, o)
            &&& code == EXIT_ERROR <==> unseen
        }),
{
    failures_tell_of_a_reading(tcp.values, tcp.keys, Some(GLOBAL_SUBKEY@));
    failures_tell_of_a_reading(system.values, system.keys, Some(system::SUBKEY@));
    failures_tell_of_a_reading(mtu.values, mtu.keys, None);
    failures_tell_of_a_nic(nodes);
    assert(o.failures@.len() == views(o.failures@).len());
}

// ---------------------------------------------------------------------------
// Plan
// ---------------------------------------------------------------------------

/// One entry of a plan.
pub open spec fn plan_item(what: Seq<char>, how: Seq<char>) -> Seq<Shown> {
    seq![
        Shown::Out(in_green("would set"@)),
        Shown::Out("           "@ + what),
        Shown::Out("           "@ + how),
    ]
}

/// An MTU target, or a word for none.
pub open spec fn target_text(mtu: Option<u32>, none: Seq<char>) -> Seq<char> {
    match mtu {
        Some(target) => decimal(target as nat),
        None => none,
    }
}

/// The overrides of a run, as they are repeated to the user.
pub open spec fn override_texts(choice: Choice) -> Seq<Seq<char>> {
    (match choice.dns {
        Some(dns) => seq!["--dns="@ + switch_text(dns)],
        None => Seq::empty(),
    }) + (match choice.mtu {
        Some(mtu) => seq!["--mtu="@ + target_text(mtu, "off"@)],
        None => Seq::empty(),
    }) + (match choice.power {
        Some(power) => seq!["--power="@ + switch_text(power)],
        None => Seq::empty(),
    })
}

/// The overrides of a run in brackets, or nothing.
pub open spec fn suffix_of(choice: Choice) -> Seq<char> {
    let parts = override_texts(choice);
    if parts.len() == 0 {
        ""@
    } else {
        " (overrides: "@ + joined(parts, " "@) + ")"@
    }
}

fn mtu_target(mtu: Option<u32>, none: &str) -> (s: String)
    ensures
        s@ == target_text(mtu, none@),
{
    match mtu {
        Some(target) => text::dec(target as u64),
        None => none.to_owned(),
    }
}

fn override_suffix(options: &Options) -> (s: String)
    ensures
        s@ == suffix_of(options@),
{
    let mut parts: Vec<String> = Vec::new();
    if let Some(dns) = options.dns {
        parts.push("--dns=".to_owned().concat(on_off(dns)));
    }
    if let Some(mtu) = options.mtu {
        let target = mtu_target(mtu, "off");
        parts.push("--mtu=".to_owned().concat(target.as_str()));
    }
    if let Some(power) = options.power {
        parts.push("--power=".to_owned().concat(on_off(power)));
    }
    assert(views(parts@) =~= override_texts(options@));
    if parts.len() == 0 {
        "".to_owned()
    } else {
        let list = text::join(&parts, " ");
        " (overrides: ".to_owned().concat(list.as_str()).concat(")")
    }
}

fn plan_entry(lines: &mut Vec<Line>, what: String, how: String)
    ensures
        line_views(final(lines)@) == line_views(old(lines)@) + plan_item(what@, how@),
{
    let ghost before = line_views(lines@);
    say(lines, green("would set"));
    say(lines, "           ".to_owned().concat(what.as_str()));
    say(lines, "           ".to_owned().concat(how.as_str()));
    assert(line_views(lines@) =~= before + plan_item(what@, how@));
}

/// What a plan prints: what an apply would set, feature by feature.
pub open spec fn plan_lines(cfg: Config, adapters: usize, r: Resolvers, choice: Choice) -> Seq<
    Shown,
> {
    plan_item(
        "tcp:         "@ + switch_text(cfg.tcp),
        "  (tune "@ + decimal(adapters as nat)
            + " physical adapters: Nagle, ACK frequency, TCP timers)"@,
    ) + plan_item(
        "dns:         "@ + switch_text(cfg.dns),
        "  (switch adapters to "@ + provider_text(r.provider) + " "@ + r.primary@ + " / "@
            + r.secondary@ + ")"@,
    ) + plan_item(
        "throttling:  "@ + switch_text(cfg.multimedia),
        "  (remove the Windows multimedia network throttling)"@,
    ) + plan_item(
        "mtu:         "@ + target_text(cfg.mtu, "off"@),
        "  (set adapter MTUs to "@ + target_text(cfg.mtu, "unchanged"@) + ", normalized)"@,
    ) + plan_item(
        "power:       "@ + switch_text(cfg.power),
        "  (tell NICs to stay on, PnPCapabilities 0x18)"@,
    ) + seq![
        Shown::Out(
            if is_idle(cfg) {
                "\nnothing enabled: --apply would do nothing. use the interactive menu to opt in."@
            } else {
                "\nrun `stabilizatores --apply` to apply"@ + suffix_of(choice) + "."@
            },
        ),
    ]
}

/// Dry-run: prints what an apply would do without changing the system.
pub fn run_plan(
    cfg: &Config,
    adapters: usize,
    resolvers: &Resolvers,
    options: &Options,
) -> (printed: Printed)
    ensures
        line_views(printed.lines@) == plan_lines(*cfg, adapters, *resolvers, options@),
        printed.code == EXIT_OK,
{
    let mut lines: Vec<Line> = Vec::new();
    let ghost empty = line_views(lines@);
    let count = text::dec(adapters as u64);
    plan_entry(
        &mut lines,
        "tcp:         ".to_owned().concat(on_off(cfg.tcp)),
        "  (tune ".to_owned().concat(count.as_str()).concat(
            " physical adapters: Nagle, ACK frequency, TCP timers)",
        ),
    );
    plan_entry(
        &mut lines,
        "dns:         ".to_owned().concat(on_off(cfg.dns)),
        "  (switch adapters to ".to_owned().concat(provider_label(resolvers.provider)).concat(
            " ",
        ).concat(resolvers.primary).concat(" / ").concat(resolvers.secondary).concat(")"),
    );
    plan_entry(
        &mut lines,
        "throttling:  ".to_owned().concat(on_off(cfg.multimedia)),
        "  (remove the Windows multimedia network throttling)".to_owned(),
    );
    let target = mtu_target(cfg.mtu, "off");
    let setting = mtu_target(cfg.mtu, "unchanged");
    plan_entry(
        &mut lines,
        "mtu:         ".to_owned().concat(target.as_str()),
        "  (set adapter MTUs to ".to_owned().concat(setting.as_str()).concat(", normalized)"),
    );
    plan_entry(
        &mut lines,
        "power:       ".to_owned().concat(on_off(cfg.power)),
        "  (tell NICs to stay on, PnPCapabilities 0x18)".to_owned(),
    );
    if nothing_enabled(cfg) {
        say(
            &mut lines,
            "\nnothing enabled: --apply would do nothing. use the interactive menu to opt in.".to_owned(),
        );
    } else {
        let suffix = override_suffix(options);
        say(
            &mut lines,
            "\nrun `stabilizatores --apply` to apply".to_owned().concat(suffix.as_str()).concat(
                ".",
            ),
        );
    }
    assert(empty =~= Seq::<Shown>::empty());
    assert(line_views(lines@) =~= plan_lines(*cfg, adapters, *resolvers, options@));
    Printed { lines, code: EXIT_OK }
}

// ---------------------------------------------------------------------------
// Profiles
// ---------------------------------------------------------------------------

/// How the work on a profile went.
#[derive(Debug)]
pub enum Store {
    /// The profile was saved, or not.
    Saved(Result<(), String>),
    /// The saved profiles.
    Names(Vec<String>),
    /// The profile was deleted, or not.
    Deleted(Result<(), String>),
    /// There is no such profile.
    Missing,
    /// The profile was made the active config, or not.
    Activated(Result<(), String>),
}

/// The names of profiles, one indented line each.
pub open spec fn name_lines(names: Seq<Seq<char>>) -> Seq<Seq<char>> {
    Seq::new(names.len(), |i: int| "  "@ + names[i])
}

/// What a profile operation prints, and its exit code; none when an apply run
/// follows.
pub open spec fn profile_end(op: ProfileOp, store: Store) -> (Seq<Shown>, Option<i32>) {
    match (op, store) {
        (ProfileOp::Save { name }, Store::Saved(Ok(_))) => (
            seq![Shown::Out("profile '"@ + name + "' saved."@)],
            Some(EXIT_OK),
        ),
        (ProfileOp::Save { name }, Store::Saved(Err(e))) => (
            seq![Shown::Warn("error saving profile: "@ + e@)],
            Some(EXIT_ERROR),
        ),
        (ProfileOp::List, Store::Names(names)) => (
            seq![
                Shown::Out(
                    if names@.len() == 0 {
                        "no profiles saved."@
                    } else {
                        joined(name_lines(views(names@)), "\n"@)
                    },
                ),
            ],
            Some(EXIT_OK),
        ),
        (ProfileOp::Delete { name }, Store::Deleted(Ok(_))) => (
            seq![Shown::Out("profile '"@ + name + "' deleted."@)],
            Some(EXIT_OK),
        ),
        (ProfileOp::Delete { name }, Store::Deleted(Err(e))) => (
            seq![Shown::Warn("error deleting profile: "@ + e@)],
            Some(EXIT_ERROR),
        ),
        (ProfileOp::Apply { name }, Store::Missing) => (
            seq![
                Shown::Warn("profile '"@ + name + "' does not exist; use --profile list"@),
            ],
            Some(EXIT_ERROR),
        ),
        (ProfileOp::Apply { name }, Store::Activated(Err(e))) => (
            seq![Shown::Warn("error saving config: "@ + e@)],
            Some(EXIT_ERROR),
        ),
        (ProfileOp::Apply { name }, Store::Activated(Ok(_))) => (
            seq![Shown::Out("profile '"@ + name + "' is now the active config."@)],
            None,
        ),
        _ => (Seq::empty(), Some(EXIT_ERROR)),
    }
}

fn indented(names: &Vec<String>) -> (s: String)
    ensures
        s@ == joined(name_lines(views(names@)), "\n"@),
{
    let mut parts: Vec<String> = Vec::new();
    let mut i: usize = 0;
    while i < names.len()
        invariant
            i <= names@.len(),
            parts@.len() == i,
            forall|k: int| 0 <= k < i ==> (#[trigger] parts@[k])@ == "  "@ + names@[k]@,
        decreases names@.len() - i,
    {
        parts.push("  ".to_owned().concat(names[i].as_str()));
        i = i + 1;
    }
    assert(views(parts@) =~= name_lines(views(names@)));
    text::join(&parts, "\n")
}

/// Reports how the work on a profile went. Without an exit code, the apply run
/// that makes the profile effective comes next.
pub fn run_profile(action: &ProfileAction, store: &Store) -> (end: (Vec<Line>, Option<i32>))
    ensures
        (line_views(end.0@), end.1) == profile_end(action@, *store),
{
    let mut lines: Vec<Line> = Vec::new();
    assert(line_views(lines@) =~= Seq::<Shown>::empty());
    let code: Option<i32> = match (action, store) {
        (ProfileAction::Save { name }, Store::Saved(Ok(_))) => {
            say(&mut lines, "profile '".to_owned().concat(name.as_str()).concat("' saved."));
            Some(EXIT_OK)
        },
        (ProfileAction::Save { .. }, Store::Saved(Err(e))) => {
            lines.push(Line::Warn("error saving profile: ".to_owned().concat(e.as_str())));
            Some(EXIT_ERROR)
        },
        (ProfileAction::List, Store::Names(names)) => {
            if names.len() == 0 {
                say(&mut lines, "no profiles saved.".to_owned());
            } else {
                say(&mut lines, indented(names));
            }
            Some(EXIT_OK)
        },
        (ProfileAction::Delete { name }, Store::Deleted(Ok(_))) => {
            say(&mut lines, "profile '".to_owned().concat(name.as_str()).concat("' deleted."));
            Some(EXIT_OK)
        },
        (ProfileAction::Delete { .. }, Store::Deleted(Err(e))) => {
            lines.push(Line::Warn("error deleting profile: ".to_owned().concat(e.as_str())));
            Some(EXIT_ERROR)
        },
        (ProfileAction::Apply { name }, Store::Missing) => {
            lines.push(
                Line::Warn(
                    "profile '".to_owned().concat(name.as_str()).concat(
                        "' does not exist; use --profile list",
                    ),
                ),
            );
            Some(EXIT_ERROR)
        },
        (ProfileAction::Apply { .. }, Store::Activated(Err(e))) => {
            lines.push(Line::Warn("error saving config: ".to_owned().concat(e.as_str())));
            Some(EXIT_ERROR)
        },
        (ProfileAction::Apply { name }, Store::Activated(Ok(_))) => {
            say(
                &mut lines,
                "profile '".to_owned().concat(name.as_str()).concat("' is now the active config."),
            );
            None
        },
        _ => Some(EXIT_ERROR),
    };
    assert(line_views(lines@) =~= profile_end(action@, *store).0);
    (lines, code)
}

// ---------------------------------------------------------------------------
// Reports, usage and version
// ---------------------------------------------------------------------------

/// How the writing of a report went.
#[derive(Debug)]
pub enum Written {
    /// The directory could not be created.
    NoDirectory { path: String, error: String },
    /// The report could not be serialized.
    NotSerialized { error: String },
    /// The file could not be written.
    NotWritten { path: String, error: String },
    /// The report is in this file.
    File { path: String },
}

/// Reports how the writing of a diagnostic snapshot went.
pub fn run_report(written: &Written) -> (printed: Printed)
    ensures
        line_views(printed.lines@) == seq![
            match *written {
                Written::NoDirectory { path, error } => Shown::Warn(
                    warning("cannot create "@ + path@ + ": "@ + error@),
                ),
                Written::NotSerialized { error } => Shown::Warn(
                    warning("report serialization failed: "@ + error@),
                ),
                Written::NotWritten { path, error } => Shown::Warn(
                    warning("cannot write "@ + path@ + ": "@ + error@),
                ),
                Written::File { path } => Shown::Out("report written to "@ + path@),
            },
        ],
        printed.code == if *written is File {
            EXIT_OK
        } else {
            EXIT_ERROR
        },
{
    let mut lines: Vec<Line> = Vec::new();
    let code: i32 = match written {
        Written::NoDirectory { path, error } => {
            let reason = "cannot create ".to_owned().concat(path.as_str()).concat(": ").concat(
                error.as_str(),
            );
            lines.push(Line::Warn(warning_text(reason.as_str())));
            EXIT_ERROR
        },
        Written::NotSerialized { error } => {
            let reason = "report serialization failed: ".to_owned().concat(error.as_str());
            lines.push(Line::Warn(warning_text(reason.as_str())));
            EXIT_ERROR
        },
        Written::NotWritten { path, error } => {
            let reason = "cannot write ".to_owned().concat(path.as_str()).concat(": ").concat(
                error.as_str(),
            );
            lines.push(Line::Warn(warning_text(reason.as_str())));
            EXIT_ERROR
        },
        Written::File { path } => {
            lines.push(Line::Out("report written to ".to_owned().concat(path.as_str())));
            EXIT_OK
        },
    };
    assert(line_views(lines@) =~= seq![lines@[0]@]);
    Printed { lines, code }
}

/// The usage text.
pub const USAGE: &'static str = "stabilizatores - Windows internet optimization

usage: stabilizatores [-h | --help] [-V | --version]
                      [--apply | --revert | --status | --plan | --report | --restore-point | --undo]
                      [--dns=on|off] [--mtu=off|1280..9000] [--power=on|off]
                      [--profile save|apply|list|delete <name>]

runs interactively when started without flags.
--apply          apply every enabled tweak and exit
--revert         restore the archived machine state and exit
--undo           revert the last apply and restore its archive snapshot
--status         print the current alignment state and exit (read-only)
--plan           dry-run: print what --apply would change (read-only)
--report         write a diagnostic JSON snapshot and print its path (read-only)
--restore-point  create a System Restore point before tweaking
--profile        save the config as a named profile, apply/list/delete one
the --dns / --mtu / --power overrides change the config for this run only.
requires administrator rights for the network tweaks.";

/// Shows the usage text.
pub fn run_help() -> (printed: Printed)
    ensures
        line_views(printed.lines@) == seq![Shown::Out(USAGE@)],
        printed.code == EXIT_OK,
{
    let mut lines: Vec<Line> = Vec::new();
    lines.push(Line::Out(USAGE.to_owned()));
    assert(line_views(lines@) =~= seq![Shown::Out(USAGE@)]);
    Printed { lines, code: EXIT_OK }
}

/// Shows the version.
pub fn run_version() -> (printed: Printed)
    ensures
        line_views(printed.lines@) == seq![Shown::Out("stabilizatores "@ + crate::VERSION@)],
        printed.code == EXIT_OK,
{
    let mut lines: Vec<Line> = Vec::new();
    lines.push(Line::Out("stabilizatores ".to_owned().concat(crate::VERSION)));
    assert(line_views(lines@) =~= seq![Shown::Out("stabilizatores "@ + crate::VERSION@)]);
    Printed { lines, code: EXIT_OK }
}

/// Shows why the arguments were refused, and the usage text.
pub fn refuse(error: &str) -> (printed: Printed)
    ensures
        line_views(printed.lines@) == seq![
            Shown::Warn("stabilizatores: "@ + error@),
            Shown::Out("\n"@ + USAGE@),
        ],
        printed.code == EXIT_ERROR,
{
    let mut lines: Vec<Line> = Vec::new();
    lines.push(Line::Warn("stabilizatores: ".to_owned().concat(error)));
    lines.push(Line::Out("\n".to_owned().concat(USAGE)));
    assert(line_views(lines@) =~= seq![
        Shown::Warn("stabilizatores: "@ + error@),
        Shown::Out("\n"@ + USAGE@),
    ]);
    Printed { lines, code: EXIT_ERROR }
}

} // verus!
