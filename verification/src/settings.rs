//! What the user asked for on the command line.

use crate::getopts_spec::{
    flag_views, outcome, parse_flags, usage, usage_text, well_named, Flag, FlagView, Matches,
    MatchesView,
};
use crate::text::{join, join_strs, same_text, split, split_str, texts};
use vstd::prelude::*;

verus! {

/// What to do with a change once it is fetched.
#[derive(Clone, Copy, Debug, PartialEq, Eq, Structural)]
pub enum Method {
    Checkout,
    CherryPick,
}

impl Method {
    /// The name of the method as it is shown to the user.
    pub open spec fn name(self) -> Seq<char> {
        match self {
            Method::Checkout => "Checkout"@,
            Method::CherryPick => "Cherry-Pick"@,
        }
    }

    /// The Git subcommand that applies the method.
    pub open spec fn verb(self) -> Seq<char> {
        match self {
            Method::Checkout => "checkout"@,
            Method::CherryPick => "cherry-pick"@,
        }
    }

    /// The name of the method as it is shown to the user.
    pub fn display_name(self) -> (r: &'static str)
        ensures
            r@ == self.name(),
    {
        match self {
            Method::Checkout => "Checkout",
            Method::CherryPick => "Cherry-Pick",
        }
    }

    /// The Git subcommand that applies the method.
    pub fn subcommand(self) -> (r: &'static str)
        ensures
            r@ == self.verb(),
    {
        match self {
            Method::Checkout => "checkout",
            Method::CherryPick => "cherry-pick",
        }
    }
}

/// The settings as mathematics.
pub struct SettingsView {
    pub method: Method,
    pub select_all: bool,
    pub query: Seq<char>,
    pub debug: bool,
    pub show_parent: bool,
    pub only_open: bool,
}

/// What the user asked for.
pub struct Settings {
    /// What to do with the chosen changes.
    pub method: Method,
    /// Whether every change found starts out chosen.
    pub select_all: bool,
    /// The query to put to the server.
    pub query: String,
    /// Whether to say what is being done.
    pub debug: bool,
    /// Whether to show the parent of a change.
    pub show_parent: bool,
    only_open: bool,
}

impl View for Settings {
    type V = SettingsView;

    closed spec fn view(&self) -> SettingsView {
        SettingsView {
            method: self.method,
            select_all: self.select_all,
            query: self.query@,
            debug: self.debug,
            show_parent: self.show_parent,
            only_open: self.only_open,
        }
    }
}

/// Why there are no settings.
pub enum SettingsError {
    /// The arguments from the environment were rejected.
    EnvArgs,
    /// The arguments from the command line were rejected.
    CmdArgs,
    /// The user asked for the usage text.
    Help,
    /// The command line names no command.
    MissingCommand,
    /// The command line names a command that is none.
    Unsupported(String),
}

/// Why there are no settings, as mathematics.
pub enum SettingsErrorView {
    EnvArgs,
    CmdArgs,
    Help,
    MissingCommand,
    Unsupported(Seq<char>),
}

impl View for SettingsError {
    type V = SettingsErrorView;

    open spec fn view(&self) -> SettingsErrorView {
        match self {
            SettingsError::EnvArgs => SettingsErrorView::EnvArgs,
            SettingsError::CmdArgs => SettingsErrorView::CmdArgs,
            SettingsError::Help => SettingsErrorView::Help,
            SettingsError::MissingCommand => SettingsErrorView::MissingCommand,
            SettingsError::Unsupported(op) => SettingsErrorView::Unsupported(op@),
        }
    }
}

/// The place of each flag in the table.
pub const HELP: usize = 0;

pub const CLOSED: usize = 1;

pub const OPEN: usize = 2;

pub const ALL: usize = 3;

pub const SHOW_PARENT: usize = 4;

pub const DEBUG: usize = 5;

/// The flags that the tool takes.
pub open spec fn table() -> Seq<FlagView> {
    seq![
        FlagView { short: "h"@, long: "help"@, description: "Print this menu"@ },
        FlagView { short: "c"@, long: "closed"@, description: "Include closed commits"@ },
        FlagView {
            short: "o"@,
            long: "open"@,
            description: "Don't include closed commits (default, will override -c if set)"@,
        },
        FlagView { short: "a"@, long: "all"@, description: "pre-select all commits"@ },
        FlagView {
            short: "p"@,
            long: "show-parent"@,
            description: "Show info about parent commit in preview even in ssh (This will lead to additional queries)"@,
        },
        FlagView {
            short: ""@,
            long: "debug"@,
            description: "Print debug information while running"@,
        },
    ]
}

/// Whether the flag at place `i` of the table was given.
pub open spec fn given(m: MatchesView, i: int) -> bool {
    0 <= i < m.present.len() && m.present[i]
}

/// The settings after taking in what was found on one command line. The
/// flag for closed changes widens the query, the flag for open ones
/// narrows it again, and the others can only switch something on.
pub open spec fn applied(s: SettingsView, m: MatchesView) -> SettingsView {
    SettingsView {
        only_open: if !s.only_open && given(m, OPEN as int) {
            true
        } else if given(m, CLOSED as int) {
            false
        } else {
            s.only_open
        },
        select_all: s.select_all || given(m, ALL as int),
        show_parent: s.show_parent || given(m, SHOW_PARENT as int),
        debug: s.debug || given(m, DEBUG as int),
        ..s
    }
}

/// The method that a command names.
pub open spec fn method_of(word: Seq<char>) -> Option<Method> {
    if word == "checkout"@ || word == "co"@ {
        Some(Method::Checkout)
    } else if word == "cherry-pick"@ || word == "cp"@ {
        Some(Method::CherryPick)
    } else {
        None
    }
}

/// `query` with what narrows it behind it: the restriction to open
/// changes unless closed ones are asked for, the project if one is known,
/// and what the user typed.
pub open spec fn narrowed(query: Seq<char>, only_open: bool, project: Seq<char>, typed: Seq<char>) -> Seq<
    char,
> {
    query + (if only_open {
        "status:open "@
    } else {
        Seq::empty()
    }) + (if project.len() > 0 {
        "project:"@ + project + " "@
    } else {
        Seq::empty()
    }) + typed
}

/// The settings before any argument is read.
pub open spec fn initial() -> SettingsView {
    SettingsView {
        method: Method::Checkout,
        select_all: false,
        query: "limit:200 "@,
        debug: false,
        show_parent: false,
        only_open: true,
    }
}

/// The settings that follow from what was found in the arguments of the
/// environment and of the command line, for a workspace that holds the
/// given project. The command line is read after the environment.
pub open spec fn configured(
    env: Option<MatchesView>,
    cmd: Option<MatchesView>,
    project: Seq<char>,
) -> Result<SettingsView, SettingsErrorView> {
    if env is None {
        Err(SettingsErrorView::EnvArgs)
    } else if cmd is None {
        Err(SettingsErrorView::CmdArgs)
    } else if given(env->0, HELP as int) || given(cmd->0, HELP as int) {
        Err(SettingsErrorView::Help)
    } else if cmd->0.free.len() == 0 {
        Err(SettingsErrorView::MissingCommand)
    } else {
        let flags = applied(applied(initial(), env->0), cmd->0);
        let free = cmd->0.free;
        match method_of(free[0]) {
            None => Err(SettingsErrorView::Unsupported(free[0])),
            Some(method) => Ok(
                SettingsView {
                    method,
                    query: narrowed(
                        flags.query,
                        flags.only_open,
                        project,
                        join(free.skip(1), " "@),
                    ),
                    ..flags
                },
            ),
        }
    }
}

/// What the command line says of open and closed changes overrides what
/// the environment says: with the flag for open changes alone the query
/// is narrowed to them, with the flag for closed ones alone it is not.
pub proof fn lemma_command_line_overrides(env: MatchesView, cmd: MatchesView)
    ensures
        given(cmd, OPEN as int) && !given(cmd, CLOSED as int) ==> applied(
            applied(initial(), env),
            cmd,
        ).only_open,
        given(cmd, CLOSED as int) && !given(cmd, OPEN as int) ==> !applied(
            applied(initial(), env),
            cmd,
        ).only_open,
{
}

/// A flag that switches something on does so wherever it is given, in the
/// environment or on the command line.
pub proof fn lemma_flags_switch_on(env: MatchesView, cmd: MatchesView)
    ensures
        applied(applied(initial(), env), cmd).select_all == (given(env, ALL as int) || given(
            cmd,
            ALL as int,
        )),
        applied(applied(initial(), env), cmd).show_parent == (given(env, SHOW_PARENT as int) || given(
            cmd,
            SHOW_PARENT as int,
        )),
        applied(applied(initial(), env), cmd).debug == (given(env, DEBUG as int) || given(
            cmd,
            DEBUG as int,
        )),
{
}

/// Whether there are settings, and if not why, does not depend on the
/// project: what is wrong with the arguments is known before anything is
/// known of the workspace.
pub proof fn lemma_errors_ignore_project(
    env: Option<MatchesView>,
    cmd: Option<MatchesView>,
    project: Seq<char>,
    other: Seq<char>,
)
    ensures
        configured(env, cmd, project) is Err <==> configured(env, cmd, other) is Err,
        configured(env, cmd, project) matches Err(e) ==> configured(env, cmd, other) == Err::<
            SettingsView,
            SettingsErrorView,
        >(e),
{
}

/// The usage text for a program of the given name.
pub open spec fn usage_for(program: Seq<char>) -> Seq<char> {
    usage_text(table(), "Usage: "@ + program + " [options] checkout|co|cherry-pick|cp [query]"@)
        + "\nThe options can be set either on command line or through\nthe env var GRT_ARGS, anything set on command line will\noverride what's set in the environment.\n"@
}

fn flag(short: &str, long: &str, description: &str) -> (r: Flag)
    ensures
        r@ == (FlagView { short: short@, long: long@, description: description@ }),
{
    Flag {
        short: String::from_str(short),
        long: String::from_str(long),
        description: String::from_str(description),
    }
}

fn was_given(m: &Matches, i: usize) -> (r: bool)
    ensures
        r == given(m@, i as int),
{
    i < m.present.len() && m.present[i]
}

impl SettingsError {
    /// What to tell the user before the usage text; empty where the usage
    /// text says it all.
    pub fn message(&self) -> (r: String)
        ensures
            r@ == match self@ {
                SettingsErrorView::EnvArgs => "Failed to parse env args"@,
                SettingsErrorView::CmdArgs => "Failed to parse cmd args"@,
                SettingsErrorView::Help => Seq::empty(),
                SettingsErrorView::MissingCommand => "Must add a command, valid options are 'checkout', 'co', 'cherry-pick', 'cp'"@,
                SettingsErrorView::Unsupported(op) => "Unsupported operation '"@ + op + "'"@,
            },
    {
        match self {
            SettingsError::EnvArgs => String::from_str("Failed to parse env args"),
            SettingsError::CmdArgs => String::from_str("Failed to parse cmd args"),
            SettingsError::Help => String::new(),
            SettingsError::MissingCommand => String::from_str(
                "Must add a command, valid options are 'checkout', 'co', 'cherry-pick', 'cp'",
            ),
            SettingsError::Unsupported(op) => {
                let mut out = String::from_str("Unsupported operation '");
                out.append(op.as_str());
                out.append("'");
                out
            },
        }
    }
}

impl Settings {
    /// The flags that the tool takes.
    pub fn flags() -> (r: Vec<Flag>)
        ensures
            flag_views(r@) == table(),
            forall|i: int| 0 <= i < r@.len() ==> well_named(#[trigger] r@[i]@),
    {
        let mut flags: Vec<Flag> = Vec::new();
        flags.push(flag("h", "help", "Print this menu"));
        flags.push(flag("c", "closed", "Include closed commits"));
        flags.push(
            flag(
                "o",
                "open",
                "Don't include closed commits (default, will override -c if set)",
            ),
        );
        flags.push(flag("a", "all", "pre-select all commits"));
        flags.push(
            flag(
                "p",
                "show-parent",
                "Show info about parent commit in preview even in ssh (This will lead to additional queries)",
            ),
        );
        flags.push(flag("", "debug", "Print debug information while running"));
        proof {
            reveal_strlit("h");
            reveal_strlit("c");
            reveal_strlit("o");
            reveal_strlit("a");
            reveal_strlit("p");
            reveal_strlit("");
            reveal_strlit("help");
            reveal_strlit("closed");
            reveal_strlit("open");
            reveal_strlit("all");
            reveal_strlit("show-parent");
            reveal_strlit("debug");
            assert(flag_views(flags@) == table());
        }
        flags
    }

    /// The method that a command names.
    pub fn method_named(word: &str) -> (r: Option<Method>)
        ensures
            r == method_of(word@),
    {
        if same_text(word, "checkout") || same_text(word, "co") {
            Some(Method::Checkout)
        } else if same_text(word, "cherry-pick") || same_text(word, "cp") {
            Some(Method::CherryPick)
        } else {
            None
        }
    }

    /// The usage text for a program of the given name.
    pub fn usage(program: &str) -> (r: String)
        ensures
            r@ == usage_for(program@),
    {
        let mut brief = String::from_str("Usage: ");
        brief.append(program);
        brief.append(" [options] checkout|co|cherry-pick|cp [query]");
        let flags = Self::flags();
        let mut out = usage(&flags, brief.as_str());
        out.append(
            "\nThe options can be set either on command line or through\nthe env var GRT_ARGS, anything set on command line will\noverride what's set in the environment.\n",
        );
        out
    }

    /// Takes in what was found on one command line. Returns whether the
    /// user asked for the usage text; the settings then stay as they are.
    pub fn parse_args(&mut self, matches: &Matches) -> (help: bool)
        ensures
            help == given(matches@, HELP as int),
            final(self)@ == if help {
                old(self)@
            } else {
                applied(old(self)@, matches@)
            },
    {
        if was_given(matches, HELP) {
            return true;
        }
        if !self.only_open && was_given(matches, OPEN) {
            self.only_open = true;
        } else if was_given(matches, CLOSED) {
            self.only_open = false;
        }
        if was_given(matches, ALL) {
            self.select_all = true;
        }
        if was_given(matches, SHOW_PARENT) {
            self.show_parent = true;
        }
        if was_given(matches, DEBUG) {
            self.debug = true;
        }
        false
    }

    /// Puts what narrows the query behind it.
    pub fn create_query(&mut self, query: &str, project_name: &str)
        ensures
            final(self)@ == (SettingsView {
                query: narrowed(old(self)@.query, old(self)@.only_open, project_name@, query@),
                ..old(self)@
            }),
    {
        let mut text = self.query.clone();
        if self.only_open {
            text.append("status:open ");
        }
        if project_name.unicode_len() > 0 {
            text.append("project:");
            text.append(project_name);
            text.append(" ");
        }
        text.append(query);
        assert(text@ =~= narrowed(self@.query, self@.only_open, project_name@, query@));
        self.query = text;
    }

    /// The settings that follow from what was found in the arguments of
    /// the environment and of the command line; `None` stands for arguments
    /// that were rejected.
    pub fn configure(env: Option<&Matches>, cmd: Option<&Matches>, project_name: &str) -> (r:
        Result<Settings, SettingsError>)
        ensures
            match r {
                Ok(s) => Ok::<SettingsView, SettingsErrorView>(s@),
                Err(e) => Err(e@),
            } == configured(
                match env {
                    Some(m) => Some(m@),
                    None => None,
                },
                match cmd {
                    Some(m) => Some(m@),
                    None => None,
                },
                project_name@,
            ),
    {
        let env = match env {
            Some(m) => m,
            None => return Err(SettingsError::EnvArgs),
        };
        let cmd = match cmd {
            Some(m) => m,
            None => return Err(SettingsError::CmdArgs),
        };
        let mut s = Settings {
            method: Method::Checkout,
            query: String::from_str("limit:200 "),
            select_all: false,
            debug: false,
            only_open: true,
            show_parent: false,
        };
        if s.parse_args(env) {
            return Err(SettingsError::Help);
        }
        if s.parse_args(cmd) {
            return Err(SettingsError::Help);
        }
        if cmd.free.len() == 0 {
            return Err(SettingsError::MissingCommand);
        }
        let method = match Self::method_named(cmd.free[0].as_str()) {
            Some(method) => method,
            None => return Err(SettingsError::Unsupported(cmd.free[0].clone())),
        };
        s.method = method;
        let mut rest: Vec<String> = Vec::new();
        let mut i: usize = 1;
        let ghost free = texts(cmd.free@);
        assert(texts(rest@) == free.skip(1).take(0));
        while i < cmd.free.len()
            invariant
                1 <= i <= cmd.free.len(),
                free == texts(cmd.free@),
                texts(rest@) == free.skip(1).take(i - 1),
            decreases cmd.free.len() - i,
        {
            let word = cmd.free[i].clone();
            assert(free.skip(1).take(i as int) == free.skip(1).take(i - 1).push(word@));
            assert(texts(rest@.push(word)) == texts(rest@).push(word@));
            rest.push(word);
            i += 1;
        }
        assert(free.skip(1).take(cmd.free.len() - 1) == free.skip(1));
        let typed = join_strs(&rest, " ");
        s.create_query(typed.as_str(), project_name);
        Ok(s)
    }

    /// The settings for the arguments in the environment (one text, the
    /// arguments parted by single spaces) and on the command line (without
    /// the name of the program), in a workspace that holds the given project.
    pub fn new(env_args: &str, cmd_args: &Vec<String>, project_name: &str) -> (r: Result<
        Settings,
        SettingsError,
    >)
        ensures
            match r {
                Ok(s) => Ok::<SettingsView, SettingsErrorView>(s@),
                Err(e) => Err(e@),
            } == configured(
                outcome(table(), split(env_args@, ' ')),
                outcome(table(), texts(cmd_args@)),
                project_name@,
            ),
    {
        let flags = Self::flags();
        let env_words = split_str(env_args, ' ');
        let env = match parse_flags(&flags, &env_words) {
            Ok(m) => Some(m),
            Err(_) => None,
        };
        let cmd = match parse_flags(&flags, cmd_args) {
            Ok(m) => Some(m),
            Err(_) => None,
        };
        Self::configure(env.as_ref(), cmd.as_ref(), project_name)
    }
}

} // verus!
