//! What this crate relies on from the `getopts` crate: a table of flags
//! goes in, and what was found on a command line comes out as plain
//! values. Nothing in this file is proved; each contract is stated from the
//! source of `getopts`.

use crate::text::texts;
use vstd::prelude::*;

verus! {

/// `getopts::Fail`, why `getopts` rejects a command line.
#[verifier::external_type_specification]
#[verifier::external_body]
pub struct ExFail(getopts::Fail);

/// An option that takes no argument, as mathematics.
pub struct FlagView {
    pub short: Seq<char>,
    pub long: Seq<char>,
    pub description: Seq<char>,
}

/// An option that takes no argument and may be given once: `-h` or
/// `--help`.
pub struct Flag {
    /// The name behind one dash: one character, or empty for none.
    pub short: String,
    /// The name behind two dashes.
    pub long: String,
    /// What the usage text says of the option.
    pub description: String,
}

impl View for Flag {
    type V = FlagView;

    open spec fn view(&self) -> FlagView {
        FlagView { short: self.short@, long: self.long@, description: self.description@ }
    }
}

/// The views of a table of flags.
pub open spec fn flag_views(flags: Seq<Flag>) -> Seq<FlagView> {
    flags.map_values(|f: Flag| f@)
}

/// What was found on a command line, as mathematics.
pub struct MatchesView {
    pub present: Seq<bool>,
    pub free: Seq<Seq<char>>,
}

/// What was found on a command line.
pub struct Matches {
    /// For each flag of the table, in its order, whether it was given.
    pub present: Vec<bool>,
    /// The arguments that are no options, in their order.
    pub free: Vec<String>,
}

impl View for Matches {
    type V = MatchesView;

    open spec fn view(&self) -> MatchesView {
        MatchesView { present: self.present@, free: texts(self.free@) }
    }
}

/// Whether a character is a visible character of ASCII.
pub open spec fn is_graphic(c: char) -> bool {
    0x21 <= (c as u32) <= 0x7E
}

/// Whether `getopts` takes the names of a flag: the short name is empty or
/// one visible character of ASCII, the long name has two characters or more.
pub open spec fn well_named(flag: FlagView) -> bool {
    &&& flag.short.len() == 0 || (flag.short.len() == 1 && is_graphic(flag.short[0]))
    &&& flag.long.len() >= 2
}

/// What `getopts` finds on the command line `args` when the options are
/// the flags of the table; `None` where it rejects the command line.
pub uninterp spec fn outcome(flags: Seq<FlagView>, args: Seq<Seq<char>>) -> Option<MatchesView>;

/// The text that `getopts` writes to describe the flags of a table under
/// the heading `brief`.
pub uninterp spec fn usage_text(flags: Seq<FlagView>, brief: Seq<char>) -> Seq<char>;

/// `Options::optflag` defines each flag of the table, `Options::parse`
/// reads the command line, `Matches::opt_present` says of each flag, by its
/// long name, whether it was given, and the field `free` of `Matches` holds
/// the arguments that are no options. All that is claimed is that the
/// outcome depends on the table and the arguments alone, and that it says
/// of every flag of the table whether it was given. The names must be such
/// that `optflag` takes them: it panics on others.
#[verifier::external_body]
pub(crate) fn parse_flags(flags: &Vec<Flag>, args: &Vec<String>) -> (r: Result<
    Matches,
    getopts::Fail,
>)
    requires
        forall|i: int| 0 <= i < flags@.len() ==> well_named(#[trigger] flags@[i]@),
    ensures
        match r {
            Ok(m) => outcome(flag_views(flags@), texts(args@)) == Some(m@) && m.present@.len()
                == flags@.len(),
            Err(_) => outcome(flag_views(flags@), texts(args@)) is None,
        },
{
    let mut options = getopts::Options::new();
    for f in flags.iter() {
        options.optflag(&f.short, &f.long, &f.description);
    }
    let found = options.parse(args)?;
    let mut present = Vec::new();
    for f in flags.iter() {
        present.push(found.opt_present(&f.long));
    }
    Ok(Matches { present, free: found.free })
}

/// `Options::usage` describes the options that were defined with
/// `Options::optflag`, under a heading. All that is claimed is that the
/// text depends on the table and the heading alone. The names must be such
/// that `optflag` takes them: it panics on others.
#[verifier::external_body]
pub(crate) fn usage(flags: &Vec<Flag>, brief: &str) -> (r: String)
    requires
        forall|i: int| 0 <= i < flags@.len() ==> well_named(#[trigger] flags@[i]@),
    ensures
        r@ == usage_text(flag_views(flags@), brief@),
{
    let mut options = getopts::Options::new();
    for f in flags.iter() {
        options.optflag(&f.short, &f.long, &f.description);
    }
    options.usage(brief)
}

} // verus!
