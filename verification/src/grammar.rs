//! The command grammar, kept as a `clap::Command` tree, and the calls that
//! build and query it. Verus takes the contracts in this file on trust: each
//! states what the named `clap` or `shlex` function does.

use vstd::prelude::*;
use crate::text::texts;

verus! {

/// `clap::Command`: a grammar node. Verus sees nothing inside it.
#[verifier::external_type_specification]
#[verifier::external_body]
pub struct ExCommand(clap::Command);

/// `clap::ArgMatches`: the outcome of a parse. Verus sees nothing inside
/// it.
#[verifier::external_type_specification]
#[verifier::external_body]
pub struct ExArgMatches(clap::ArgMatches);

/// The name that a grammar node was made with.
pub uninterp spec fn grammar_name(c: clap::Command) -> Seq<char>;

/// The aliases of a grammar node itself, in the order in which they were
/// given.
pub uninterp spec fn grammar_aliases(c: clap::Command) -> Seq<Seq<char>>;

/// The names of the subcommands attached to a grammar node, in the order in
/// which they were attached.
pub uninterp spec fn grammar_children(c: clap::Command) -> Seq<Seq<char>>;

/// The names and aliases of the subcommands attached to a grammar node:
/// for each subcommand, in the order of attachment, its name and then its
/// aliases. These are the words by which `clap` selects a subcommand, and of
/// which it asserts that none occurs twice.
pub uninterp spec fn grammar_labels(c: clap::Command) -> Seq<Seq<char>>;

/// Whether a grammar node itself holds nothing but a name, aliases, a
/// description, settings among the three that this file sets, and
/// subcommands: no argument, group, flag, version, template or deferred
/// change of its own. Its subcommands may hold anything.
pub uninterp spec fn grammar_plain(c: clap::Command) -> bool;

/// Whether a grammar node hands down to its subcommands the setting by
/// which the first word is an argument.
pub uninterp spec fn hands_down_no_binary_name(c: clap::Command) -> bool;

/// Whether a grammar node hands down to its subcommands the setting that
/// leaves out the generated help flag.
pub uninterp spec fn hands_down_no_help_flag(c: clap::Command) -> bool;

/// Whether a grammar node hands down to its subcommands the setting that
/// leaves out the generated help subcommand.
pub uninterp spec fn hands_down_no_help_subcommand(c: clap::Command) -> bool;

/// Whether `c` is a grammar that `clap` can be asked to parse with and to
/// render: the consistency assertions that `clap` makes in debug builds
/// when a command is built hold of `c` and of every command below it, each
/// built alone or as a part of `c`; no command in it is selected by a flag;
/// and what the grammar brings of its own, such as value parsers, depends
/// on nothing but the words given to it. A grammar that fails the
/// assertions makes `clap` panic.
pub uninterp spec fn grammar_accepted(c: clap::Command) -> bool;

/// What `clap::Command::new` makes of a name.
pub uninterp spec fn made(name: Seq<char>) -> clap::Command;

/// What `clap::Command::alias` makes of a node and an alias.
pub uninterp spec fn with_alias(c: clap::Command, name: Seq<char>) -> clap::Command;

/// What `clap::Command::about` makes of a node and a description.
pub uninterp spec fn with_about(c: clap::Command, text: Seq<char>) -> clap::Command;

/// What `clap::Command::no_binary_name` makes of a node.
pub uninterp spec fn with_no_binary_name(c: clap::Command, yes: bool) -> clap::Command;

/// What `clap::Command::disable_help_flag` makes of a node.
pub uninterp spec fn with_no_help_flag(c: clap::Command, yes: bool) -> clap::Command;

/// What `clap::Command::disable_help_subcommand` makes of a node.
pub uninterp spec fn with_no_help_subcommand(c: clap::Command, yes: bool) -> clap::Command;

/// What `clap::Command::subcommand` makes of a node and a subcommand.
pub uninterp spec fn attached(parent: clap::Command, child: clap::Command) -> clap::Command;

/// The first subcommand of `c` of which `name` is the name or an alias.
pub uninterp spec fn found(c: clap::Command, name: Seq<char>) -> Option<clap::Command>;

/// What `clap` makes of `words` parsed against the grammar `c`; `None`
/// where it reports an error.
pub uninterp spec fn parsed(c: clap::Command, words: Seq<Seq<char>>) -> Option<clap::ArgMatches>;

/// The usage text of the grammar `c`, as `clap` renders it, without styling.
pub uninterp spec fn rendered(c: clap::Command) -> Seq<char>;

/// The subcommand that a parse selected, with the matches below it; `None`
/// where none was given.
pub uninterp spec fn matched(m: clap::ArgMatches) -> Option<(Seq<char>, clap::ArgMatches)>;

/// The words into which `shlex` splits an input line by the rules of the
/// POSIX shell; splitting stops at the first malformed word.
pub uninterp spec fn shell_words(input: Seq<char>) -> Seq<Seq<char>>;

/// The words by which a node is selected below another: its name, then its
/// aliases.
pub open spec fn own_labels(c: clap::Command) -> Seq<Seq<char>> {
    seq![grammar_name(c)] + grammar_aliases(c)
}

/// Whether a node hands down all three settings that this file sets.
pub open spec fn settled(c: clap::Command) -> bool {
    &&& hands_down_no_binary_name(c)
    &&& hands_down_no_help_flag(c)
    &&& hands_down_no_help_subcommand(c)
}

/// Whether `r` has the name, the aliases and the subcommands of `c`.
pub open spec fn same_shape(r: clap::Command, c: clap::Command) -> bool {
    &&& grammar_name(r) == grammar_name(c)
    &&& grammar_aliases(r) == grammar_aliases(c)
    &&& grammar_children(r) == grammar_children(c)
    &&& grammar_labels(r) == grammar_labels(c)
}

/// Whether a node is plain and has no subcommand: nothing that a setting
/// could run against.
pub open spec fn bare(c: clap::Command) -> bool {
    grammar_plain(c) && grammar_children(c).len() == 0
}

/// `clap::Command::new`: a node of the given name, with no alias and no
/// subcommand, plain, with none of the three settings. Such a node is
/// accepted: built, it holds the generated help flag and nothing else.
#[verifier::external_body]
pub(crate) fn command(name: &'static str) -> (r: clap::Command)
    ensures
        r == made(name@),
        grammar_name(r) == name@,
        grammar_aliases(r) == Seq::<Seq<char>>::empty(),
        grammar_children(r) == Seq::<Seq<char>>::empty(),
        grammar_labels(r) == Seq::<Seq<char>>::empty(),
        grammar_plain(r),
        !hands_down_no_binary_name(r),
        !hands_down_no_help_flag(r),
        !hands_down_no_help_subcommand(r),
        grammar_accepted(r),
{
    clap::Command::new(name)
}

/// `clap::Command::alias`: adds a hidden alias behind those that the node
/// has; all else stays. The aliases of a node are read only where it is a
/// subcommand, so that an accepted node stays accepted.
#[verifier::external_body]
pub(crate) fn alias(cmd: clap::Command, name: &'static str) -> (r: clap::Command)
    ensures
        r == with_alias(cmd, name@),
        grammar_name(r) == grammar_name(cmd),
        grammar_aliases(r) == grammar_aliases(cmd).push(name@),
        grammar_children(r) == grammar_children(cmd),
        grammar_labels(r) == grammar_labels(cmd),
        grammar_plain(r) == grammar_plain(cmd),
        hands_down_no_binary_name(r) == hands_down_no_binary_name(cmd),
        hands_down_no_help_flag(r) == hands_down_no_help_flag(cmd),
        hands_down_no_help_subcommand(r) == hands_down_no_help_subcommand(cmd),
        grammar_accepted(cmd) ==> grammar_accepted(r),
{
    cmd.alias(name)
}

/// `clap::Command::about`: sets the description; all else stays. No
/// assertion fails for a description that is there, so that an accepted
/// node stays accepted.
#[verifier::external_body]
pub(crate) fn about(cmd: clap::Command, text: &'static str) -> (r: clap::Command)
    ensures
        r == with_about(cmd, text@),
        same_shape(r, cmd),
        grammar_plain(r) == grammar_plain(cmd),
        hands_down_no_binary_name(r) == hands_down_no_binary_name(cmd),
        hands_down_no_help_flag(r) == hands_down_no_help_flag(cmd),
        hands_down_no_help_subcommand(r) == hands_down_no_help_subcommand(cmd),
        grammar_accepted(cmd) ==> grammar_accepted(r),
{
    cmd.about(text)
}

/// `clap::Command::no_binary_name`: sets or unsets, on the node and for
/// what is below it, the setting by which the first word is parsed as an
/// argument; all else stays. The setting runs against nothing that a bare
/// node holds.
#[verifier::external_body]
pub(crate) fn no_binary_name(cmd: clap::Command, yes: bool) -> (r: clap::Command)
    ensures
        r == with_no_binary_name(cmd, yes),
        same_shape(r, cmd),
        grammar_plain(r) == grammar_plain(cmd),
        hands_down_no_binary_name(r) == yes,
        hands_down_no_help_flag(r) == hands_down_no_help_flag(cmd),
        hands_down_no_help_subcommand(r) == hands_down_no_help_subcommand(cmd),
        yes && bare(cmd) && grammar_accepted(cmd) ==> grammar_accepted(r),
{
    cmd.no_binary_name(yes)
}

/// `clap::Command::disable_help_flag`: sets or unsets, on the node and for
/// what is below it, the setting that leaves out the generated help flag;
/// all else stays. Nothing that a bare node holds refers to that flag.
#[verifier::external_body]
pub(crate) fn disable_help_flag(cmd: clap::Command, yes: bool) -> (r: clap::Command)
    ensures
        r == with_no_help_flag(cmd, yes),
        same_shape(r, cmd),
        grammar_plain(r) == grammar_plain(cmd),
        hands_down_no_binary_name(r) == hands_down_no_binary_name(cmd),
        hands_down_no_help_flag(r) == yes,
        hands_down_no_help_subcommand(r) == hands_down_no_help_subcommand(cmd),
        yes && bare(cmd) && grammar_accepted(cmd) ==> grammar_accepted(r),
{
    cmd.disable_help_flag(yes)
}

/// `clap::Command::disable_help_subcommand`: sets or unsets, on the node
/// and for what is below it, the setting that leaves out the generated help
/// subcommand; all else stays. A bare node has no subcommand, and so gets no
/// generated one either way.
#[verifier::external_body]
pub(crate) fn disable_help_subcommand(cmd: clap::Command, yes: bool) -> (r: clap::Command)
    ensures
        r == with_no_help_subcommand(cmd, yes),
        same_shape(r, cmd),
        grammar_plain(r) == grammar_plain(cmd),
        hands_down_no_binary_name(r) == hands_down_no_binary_name(cmd),
        hands_down_no_help_flag(r) == hands_down_no_help_flag(cmd),
        hands_down_no_help_subcommand(r) == yes,
        yes && bare(cmd) && grammar_accepted(cmd) ==> grammar_accepted(r),
{
    cmd.disable_help_subcommand(yes)
}

/// `clap::Command::subcommand`: appends `child` to the subcommands of
/// `parent`, whatever its name; the parent's own part stays.
///
/// The result is accepted where both are, the parent is plain and gets no
/// generated help subcommand, no label occurs twice below it, and the
/// child is built below the parent as it is built alone: because it hands
/// down already what the parent hands down, or because it is bare. A plain
/// parent holds nothing else that the child could run against, and an
/// accepted child is selected by no flag.
#[verifier::external_body]
pub(crate) fn attach(parent: clap::Command, child: clap::Command) -> (r: clap::Command)
    ensures
        r == attached(parent, child),
        grammar_name(r) == grammar_name(parent),
        grammar_aliases(r) == grammar_aliases(parent),
        grammar_children(r) == grammar_children(parent).push(grammar_name(child)),
        grammar_labels(r) == grammar_labels(parent) + own_labels(child),
        grammar_plain(r) == grammar_plain(parent),
        hands_down_no_binary_name(r) == hands_down_no_binary_name(parent),
        hands_down_no_help_flag(r) == hands_down_no_help_flag(parent),
        hands_down_no_help_subcommand(r) == hands_down_no_help_subcommand(parent),
        grammar_accepted(parent) && grammar_accepted(child) && grammar_plain(parent)
            && hands_down_no_help_subcommand(parent) && (grammar_labels(parent) + own_labels(
            child,
        )).no_duplicates() && (settled(child) || bare(child)) ==> grammar_accepted(r),
{
    parent.subcommand(child)
}

/// `Clone::clone` of a `clap::Command`: a grammar equal to `cmd`.
#[verifier::external_body]
pub(crate) fn duplicate(cmd: &clap::Command) -> (r: clap::Command)
    ensures
        r == *cmd,
{
    cmd.clone()
}

/// `clap::Command::get_name`.
#[verifier::external_body]
pub(crate) fn name_of(cmd: &clap::Command) -> (r: String)
    ensures
        r@ == grammar_name(*cmd),
{
    cmd.get_name().to_string()
}

/// `clap::Command::get_all_aliases`: the node's own aliases.
#[verifier::external_body]
pub(crate) fn aliases_of(cmd: &clap::Command) -> (r: Vec<String>)
    ensures
        texts(r@) == grammar_aliases(*cmd),
{
    let mut out: Vec<String> = Vec::new();
    for alias in cmd.get_all_aliases() {
        out.push(alias.to_string());
    }
    out
}

/// `clap::Command::find_subcommand`: the first subcommand of which `name` is
/// the name or an alias. One is found exactly where `name` is among the
/// labels, and what is found below an accepted grammar is accepted.
#[verifier::external_body]
pub(crate) fn find(cmd: &clap::Command, name: &str) -> (r: Option<clap::Command>)
    ensures
        r == found(*cmd, name@),
        r is Some <==> grammar_labels(*cmd).contains(name@),
        r is Some && grammar_accepted(*cmd) ==> grammar_accepted(r->0),
{
    cmd.find_subcommand(name).cloned()
}

/// `clap::Command::try_get_matches_from`: parses `words` against `cmd`;
/// `None` where `clap` reports an error.
#[verifier::external_body]
pub(crate) fn parse(cmd: clap::Command, words: Vec<String>) -> (r: Option<clap::ArgMatches>)
    requires
        grammar_accepted(cmd),
    ensures
        r == parsed(cmd, texts(words@)),
{
    match cmd.try_get_matches_from(words) {
        Ok(matches) => Some(matches),
        Err(_) => None,
    }
}

/// `clap::Command::render_help`, as plain text.
#[verifier::external_body]
pub(crate) fn render(cmd: clap::Command) -> (r: String)
    requires
        grammar_accepted(cmd),
    ensures
        r@ == rendered(cmd),
{
    let mut cmd = cmd;
    cmd.render_help().to_string()
}

/// `clap::ArgMatches::subcommand`: the selected subcommand's name and a copy
/// of the matches below it.
#[verifier::external_body]
pub(crate) fn selected(m: &clap::ArgMatches) -> (r: Option<(String, clap::ArgMatches)>)
    ensures
        match r {
            Some((name, below)) => matched(*m) == Some((name@, below)),
            None => matched(*m) is None,
        },
{
    match m.subcommand() {
        Some((name, below)) => Some((name.to_string(), below.clone())),
        None => None,
    }
}

/// `shlex::Shlex::new`, walked to its end: the words of `input`.
#[verifier::external_body]
pub(crate) fn words(input: &str) -> (r: Vec<String>)
    ensures
        texts(r@) == shell_words(input@),
{
    shlex::Shlex::new(input).collect()
}

} // verus!
