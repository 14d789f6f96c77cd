//! The console's state: the log, the history, the command grammar and the
//! routes from command names to handlers.

use vstd::prelude::*;
use crate::distribute::Distribute;
use crate::grammar::{
    about, alias, aliases_of, attach, attached, command, disable_help_flag,
    disable_help_subcommand, duplicate, find, found, grammar_accepted, grammar_aliases,
    grammar_children, grammar_labels, grammar_name, grammar_plain,
    hands_down_no_help_subcommand, made, matched, name_of, no_binary_name, own_labels, parse,
    parsed, render, rendered, selected, shell_words, with_about, with_alias, with_no_binary_name,
    with_no_help_flag, with_no_help_subcommand, words,
};
use crate::history::{back_of, forward_of, recalled, History};
use crate::record::{
    blanks, keep_last, last_of, pushed, shown, tagged, window, without_last, Level, Record,
};
use crate::text::{lines, same, texts, trimmed};

verus! {

/// The names of the commands that every console has, in the order of their
/// grammar nodes.
pub open spec fn builtins() -> Seq<Seq<char>> {
    seq!["help"@, "exit"@, "clear"@]
}

/// Whether `name` is taken by a built-in command or by one of its aliases.
pub open spec fn reserved(name: Seq<char>) -> bool {
    ||| name == "help"@
    ||| name == "exit"@
    ||| name == "quit"@
    ||| name == "clear"@
    ||| name == "clean"@
}

/// The words by which the built-in commands are selected: their names and
/// aliases, in the order of their grammar nodes.
pub open spec fn reserved_labels() -> Seq<Seq<char>> {
    seq!["help"@, "exit"@, "quit"@, "clear"@, "clean"@]
}

/// The grammar of a console in which nothing is registered: a root that
/// takes the first word as a command and has neither a help flag nor a
/// generated help subcommand, and below it `help`, `exit` with the alias
/// `quit`, and `clear` with the alias `clean`.
pub open spec fn root_grammar() -> clap::Command {
    let root = with_no_help_subcommand(
        with_no_help_flag(with_no_binary_name(made(""@), true), true),
        true,
    );
    let help = with_about(made("help"@), "show the commands"@);
    let exit = with_about(with_alias(made("exit"@), "quit"@), "exit game"@);
    let clear = with_about(with_alias(made("clear"@), "clean"@), "clear the record"@);
    attached(attached(attached(root, help), exit), clear)
}

/// The node that stands for a registered command: its grammar, with the
/// three settings that the root hands down and with a nested `help`
/// subcommand.
pub open spec fn node_of(matcher: clap::Command) -> clap::Command {
    attached(
        with_no_help_subcommand(
            with_no_help_flag(with_no_binary_name(matcher, true), true),
            true,
        ),
        made("help"@),
    )
}

/// Whether the labels `own` can be added to `labels`: none of them is among
/// `labels`, and none occurs twice.
pub open spec fn free(labels: Seq<Seq<char>>, own: Seq<Seq<char>>) -> bool {
    &&& own.no_duplicates()
    &&& forall|i: int| 0 <= i < own.len() ==> !labels.contains(#[trigger] own[i])
}

/// Where `name` stands among `names`, if it does.
pub open spec fn slot(names: Seq<Seq<char>>, name: Seq<char>) -> Option<int> {
    if names.contains(name) {
        Some(names.index_of(name))
    } else {
        None
    }
}

/// The names of a sequence of routes.
pub open spec fn names_of<H>(routes: Seq<(Seq<char>, H, Seq<clap::ArgMatches>)>) -> Seq<
    Seq<char>,
> {
    Seq::new(routes.len(), |i: int| routes[i].0)
}

/// What the outcome of a parse resolves to: the selected command and the
/// matches below it; `None` where the parse failed or selected no command.
pub open spec fn resolved(outcome: Option<clap::ArgMatches>) -> Option<
    (Seq<char>, clap::ArgMatches),
> {
    match outcome {
        Some(matches) => matched(matches),
        None => None,
    }
}

/// The usage text of the command that `bin` names in `grammar`; the empty
/// text where the grammar holds no such command.
pub open spec fn help_of(grammar: clap::Command, bin: Seq<char>) -> Seq<char> {
    match found(grammar, bin) {
        Some(node) => rendered(node),
        None => Seq::empty(),
    }
}

/// The selected command of a parse and the matches below it; `None` where
/// the parse failed or selected no command.
pub fn resolve(outcome: Option<clap::ArgMatches>) -> (r: Option<(String, clap::ArgMatches)>)
    ensures
        match r {
            Some((bin, args)) => resolved(outcome) == Some((bin@, args)),
            None => resolved(outcome) is None,
        },
{
    match outcome {
        Some(matches) => selected(&matches),
        None => None,
    }
}

/// Whether `name` is taken by a built-in command or by one of its aliases.
pub fn is_reserved(name: &str) -> (r: bool)
    ensures
        r == reserved(name@),
{
    same(name, "help") || same(name, "exit") || same(name, "quit") || same(name, "clear") || same(
        name,
        "clean",
    )
}

/// A name that has been registered is taken: it stands among the names of
/// the routes, so that it cannot be registered again.
pub proof fn lemma_registered_is_taken<H>(
    routes: Seq<(Seq<char>, H, Seq<clap::ArgMatches>)>,
    name: Seq<char>,
    handler: H,
)
    ensures
        names_of(routes.push((name, handler, Seq::<clap::ArgMatches>::empty()))).contains(name),
{
    let after = routes.push((name, handler, Seq::<clap::ArgMatches>::empty()));
    assert(names_of(after)[routes.len() as int] == name);
}

/// The built-in commands have three different names and five different
/// labels, and the labels are the reserved words.
pub proof fn lemma_builtins()
    ensures
        builtins().no_duplicates(),
        reserved_labels().no_duplicates(),
        forall|i: int| 0 <= i < builtins().len() ==> reserved(#[trigger] builtins()[i]),
        forall|name: Seq<char>| reserved(name) <==> reserved_labels().contains(name),
{
    reveal_strlit("help");
    reveal_strlit("exit");
    reveal_strlit("quit");
    reveal_strlit("clear");
    reveal_strlit("clean");
    assert("help"@[0] == 'h');
    assert("exit"@[0] == 'e');
    assert("quit"@[0] == 'q');
    assert("clear"@[4] == 'r');
    assert("clean"@[4] == 'n');
    assert("clear"@.len() == 5);
    assert("clean"@.len() == 5);
    assert("help"@.len() == 4);
    assert forall|name: Seq<char>| reserved(name) implies reserved_labels().contains(name) by {
        let l = reserved_labels();
        if name == "help"@ {
            assert(l[0] == name);
        } else if name == "exit"@ {
            assert(l[1] == name);
        } else if name == "quit"@ {
            assert(l[2] == name);
        } else if name == "clear"@ {
            assert(l[3] == name);
        } else {
            assert(l[4] == name);
        }
    }
}

/// Labels among which a label of the own ones already stands are not free:
/// what `register` asks of a name cannot be met a second time.
pub proof fn lemma_taken_is_not_free(labels: Seq<Seq<char>>, own: Seq<Seq<char>>, i: int)
    requires
        0 <= i < own.len(),
        labels.contains(own[i]),
    ensures
        !free(labels, own),
{
}

/// The console: one log, one history, one grammar, and the routes of the
/// registered commands. `H` is what stands for a handler.
pub struct Actuator<H> {
    record: Record,
    history: History,
    distribute: Vec<(String, Distribute<H>)>,
    matcher: clap::Command,
}

impl<H> Actuator<H> {
    /// The lines of the log, oldest first.
    pub closed spec fn log(&self) -> Seq<(Seq<char>, Level)> {
        self.record@
    }

    /// The capacity of the log.
    pub closed spec fn limit(&self) -> nat {
        self.record.limit()
    }

    /// The submitted lines, oldest first.
    pub closed spec fn past(&self) -> Seq<Seq<char>> {
        self.history.entries()
    }

    /// The recall position in the history.
    pub closed spec fn cursor(&self) -> Option<usize> {
        self.history.cursor()
    }

    /// The routes in the order of their registration: each command's name,
    /// its handler and the arguments that wait for it.
    pub closed spec fn routes(&self) -> Seq<(Seq<char>, H, Seq<clap::ArgMatches>)> {
        Seq::new(
            self.distribute@.len(),
            |i: int|
                (
                    self.distribute@[i].0@,
                    self.distribute@[i].1.handler(),
                    self.distribute@[i].1.queue(),
                ),
        )
    }

    /// The root of the grammar.
    pub closed spec fn grammar(&self) -> clap::Command {
        self.matcher
    }

    /// The names of the registered commands.
    pub open spec fn names(&self) -> Seq<Seq<char>> {
        names_of(self.routes())
    }

    /// The log and the history are well formed; no two routes share a name
    /// and none has a reserved one; the grammar holds one node for each
    /// built-in command, followed by one for each route, in order; no label
    /// occurs twice below its root, the labels begin with the reserved ones
    /// and hold every route's name; and the grammar is one that `clap`
    /// accepts.
    pub open spec fn wf(&self) -> bool {
        &&& self.log().len() <= self.limit()
        &&& match self.cursor() {
            Some(i) => i <= last_of(self.past().len()),
            None => true,
        }
        &&& self.names().no_duplicates()
        &&& forall|i: int| 0 <= i < self.names().len() ==> !reserved(#[trigger] self.names()[i])
        &&& grammar_children(self.grammar()) == builtins() + self.names()
        &&& grammar_labels(self.grammar()).no_duplicates()
        &&& reserved_labels().is_prefix_of(grammar_labels(self.grammar()))
        &&& forall|i: int|
            0 <= i < self.names().len() ==> grammar_labels(self.grammar()).contains(
                #[trigger] self.names()[i],
            )
        &&& grammar_plain(self.grammar())
        &&& hands_down_no_help_subcommand(self.grammar())
        &&& self.accepted()
    }

    /// Whether `clap` accepts the grammar as consistent: what parsing and the
    /// rendering of help ask for.
    pub open spec fn accepted(&self) -> bool {
        grammar_accepted(self.grammar())
    }

    /// Whether the log, its capacity and the history are those of `other`.
    pub open spec fn same_journal(&self, other: &Self) -> bool {
        &&& self.log() == other.log()
        &&& self.limit() == other.limit()
        &&& self.past() == other.past()
        &&& self.cursor() == other.cursor()
    }

    /// Whether the routes and the grammar are those of `other`.
    pub open spec fn same_registry(&self, other: &Self) -> bool {
        &&& self.routes() == other.routes()
        &&& self.grammar() == other.grammar()
    }

    /// A console with an empty log of capacity `max`, an empty history, no
    /// route, and the grammar of the built-in commands.
    pub fn new(max: usize) -> (r: Self)
        ensures
            r.wf(),
            r.log() == Seq::<(Seq<char>, Level)>::empty(),
            r.limit() == max,
            r.past() == Seq::<Seq<char>>::empty(),
            r.cursor() is None,
            r.routes() == Seq::<(Seq<char>, H, Seq<clap::ArgMatches>)>::empty(),
            r.grammar() == root_grammar(),
            grammar_labels(r.grammar()) == reserved_labels(),
    {
        proof {
            lemma_builtins();
        }
        let root = command("");
        let root = no_binary_name(root, true);
        let root = disable_help_flag(root, true);
        let root = disable_help_subcommand(root, true);
        let help = about(command("help"), "show the commands");
        let exit = about(alias(command("exit"), "quit"), "exit game");
        let clear = about(alias(command("clear"), "clean"), "clear the record");
        proof {
            let all = reserved_labels();
            assert(own_labels(help) =~= all.subrange(0, 1));
            assert(own_labels(exit) =~= all.subrange(1, 3));
            assert(own_labels(clear) =~= all.subrange(3, 5));
            assert(grammar_labels(root) + own_labels(help) =~= all.subrange(0, 1));
            assert(all.subrange(0, 1) + own_labels(exit) =~= all.subrange(0, 3));
            assert(all.subrange(0, 3) + own_labels(clear) =~= all);
        }
        let root = attach(root, help);
        let root = attach(root, exit);
        let root = attach(root, clear);
        let r = Actuator {
            record: Record::new(max),
            history: History::default(),
            distribute: Vec::new(),
            matcher: root,
        };
        proof {
            assert(r.routes() =~= Seq::<(Seq<char>, H, Seq<clap::ArgMatches>)>::empty());
            assert(r.names() =~= Seq::<Seq<char>>::empty());
            assert(grammar_children(r.grammar()) =~= builtins() + r.names());
            assert(reserved_labels() =~= reserved_labels().subrange(0, 5));
        }
        r
    }
}

impl<H> Default for Actuator<H> {
    /// The console as it starts: a log of 1024 lines.
    fn default() -> (r: Self)
        ensures
            r.wf(),
            r.log() == Seq::<(Seq<char>, Level)>::empty(),
            r.limit() == 1024,
            r.past() == Seq::<Seq<char>>::empty(),
            r.cursor() is None,
            r.routes() == Seq::<(Seq<char>, H, Seq<clap::ArgMatches>)>::empty(),
            r.grammar() == root_grammar(),
            grammar_labels(r.grammar()) == reserved_labels(),
    {
        Actuator::new(1024)
    }
}

impl<H> Actuator<H> {
    /// Empties the log.
    pub fn clear(&mut self)
        requires
            old(self).wf(),
        ensures
            final(self).wf(),
            final(self).log() == Seq::<(Seq<char>, Level)>::empty(),
            final(self).limit() == old(self).limit(),
            final(self).past() == old(self).past(),
            final(self).cursor() == old(self).cursor(),
            final(self).same_registry(old(self)),
    {
        self.record.clear();
    }

    /// Appends `value`, without its surrounding whitespace, to the history
    /// and ends any recall in progress.
    pub fn push_history(&mut self, value: &str)
        requires
            old(self).wf(),
        ensures
            final(self).wf(),
            final(self).past() == old(self).past().push(trimmed(value@)),
            final(self).cursor() is None,
            final(self).log() == old(self).log(),
            final(self).limit() == old(self).limit(),
            final(self).same_registry(old(self)),
    {
        self.history.push(value);
    }

    /// Steps the recall back and returns the line it lands on; `None` where
    /// the history is empty.
    pub fn roll_back_history(&mut self) -> (r: Option<&String>)
        requires
            old(self).wf(),
        ensures
            final(self).wf(),
            final(self).past() == old(self).past(),
            final(self).cursor() == Some(back_of(old(self).cursor(), old(self).past().len()) as usize),
            match r {
                Some(line) => Some(line@),
                None => None,
            } == recalled(old(self).past(), back_of(old(self).cursor(), old(self).past().len())),
            final(self).log() == old(self).log(),
            final(self).limit() == old(self).limit(),
            final(self).same_registry(old(self)),
    {
        self.history.roll_back()
    }

    /// Steps the recall forward and returns the line it lands on. A step
    /// beyond the newest line ends the recall and returns `None`; so does
    /// any step on an empty history.
    pub fn roll_forward_history(&mut self) -> (r: Option<&String>)
        requires
            old(self).wf(),
        ensures
            final(self).wf(),
            final(self).past() == old(self).past(),
            final(self).cursor() == if forward_of(old(self).cursor(), old(self).past().len())
                >= old(self).past().len() {
                None
            } else {
                Some(forward_of(old(self).cursor(), old(self).past().len()) as usize)
            },
            match r {
                Some(line) => Some(line@),
                None => None,
            } == recalled(old(self).past(), forward_of(old(self).cursor(), old(self).past().len())),
            final(self).log() == old(self).log(),
            final(self).limit() == old(self).limit(),
            final(self).same_registry(old(self)),
    {
        self.history.roll_forward()
    }

    /// Appends the lines of `value` to the log, each at `level`.
    pub fn push_record(&mut self, value: &str, level: Level)
        requires
            old(self).wf(),
        ensures
            final(self).wf(),
            final(self).log() == pushed(old(self).log(), old(self).limit(), value@, level),
            final(self).limit() == old(self).limit(),
            final(self).past() == old(self).past(),
            final(self).cursor() == old(self).cursor(),
            final(self).same_registry(old(self)),
    {
        self.record.push(value, level);
    }

    /// Appends `quantity` empty lines at `Display` severity to the log.
    pub fn push_empty_record(&mut self, quantity: usize)
        requires
            old(self).wf(),
        ensures
            final(self).wf(),
            final(self).log() == keep_last(
                old(self).log() + blanks(quantity as nat),
                old(self).limit(),
            ),
            final(self).limit() == old(self).limit(),
            final(self).past() == old(self).past(),
            final(self).cursor() == old(self).cursor(),
            final(self).same_registry(old(self)),
    {
        self.record.push_empty(quantity)
    }

    /// Takes the newest line out of the log, then appends the lines of
    /// `value`.
    pub fn replace_last_record(&mut self, value: &str, level: Level)
        requires
            old(self).wf(),
        ensures
            final(self).wf(),
            final(self).log() == keep_last(
                without_last(old(self).log()) + tagged(lines(value@), level),
                old(self).limit(),
            ),
            final(self).limit() == old(self).limit(),
            final(self).past() == old(self).past(),
            final(self).cursor() == old(self).cursor(),
            final(self).same_registry(old(self)),
    {
        self.record.replace_last(value, level);
    }

    /// The window of `quantity` lines of the log that ends at `index`.
    pub fn get_record(&self, index: &Option<usize>, quantity: &usize) -> (r: Vec<(String, Level)>)
        ensures
            shown(r@) == window(self.log(), *index, *quantity as nat),
    {
        self.record.get(index, quantity)
    }

    /// The log itself, to read.
    pub fn record(&self) -> (r: &Record)
        ensures
            r@ == self.log(),
            r.limit() == self.limit(),
            r.wf() == (self.log().len() <= self.limit()),
    {
        &self.record
    }

    pub fn record_len(&self) -> (r: usize)
        ensures
            r == self.log().len(),
    {
        self.record.len()
    }

    pub fn record_last_index(&self) -> (r: usize)
        ensures
            r == last_of(self.log().len()),
    {
        self.record.last_index()
    }
}

impl<H> Actuator<H> {
    /// Where the route of `bin` stands, if there is one.
    fn position(&self, bin: &str) -> (r: Option<usize>)
        requires
            self.wf(),
        ensures
            match r {
                Some(i) => slot(self.names(), bin@) == Some(i as int) && i < self.routes().len(),
                None => slot(self.names(), bin@) is None,
            },
    {
        let mut i: usize = 0;
        while i < self.distribute.len()
            invariant
                0 <= i <= self.distribute.len(),
                self.names().no_duplicates(),
                self.distribute@.len() == self.names().len(),
                forall|j: int| 0 <= j < i ==> self.names()[j] != bin@,
            decreases self.distribute.len() - i,
        {
            if same(self.distribute[i].0.as_str(), bin) {
                proof {
                    assert(self.names()[i as int] == bin@);
                    let k = self.names().index_of(bin@);
                    assert(0 <= k < self.names().len() && self.names()[k] == bin@);
                    assert(k == i);
                }
                return Some(i);
            }
            i = i + 1;
        }
        None
    }

    /// Whether a command of this name has been registered.
    pub fn is_registered(&self, name: &str) -> (r: bool)
        requires
            self.wf(),
        ensures
            r == self.names().contains(name@),
    {
        self.position(name).is_some()
    }

    /// Whether `label` selects a command of the grammar: a built-in one or a
    /// registered one, by its name or by an alias.
    pub fn is_taken(&self, label: &str) -> (r: bool)
        requires
            self.wf(),
        ensures
            r == grammar_labels(self.grammar()).contains(label@),
    {
        find(&self.matcher, label).is_some()
    }

    /// Whether the labels `own` can be added to the grammar.
    fn is_free(&self, own: &Vec<String>) -> (r: bool)
        requires
            self.wf(),
        ensures
            r == free(grammar_labels(self.grammar()), texts(own@)),
    {
        let ghost labels = grammar_labels(self.grammar());
        let mut i: usize = 0;
        while i < own.len()
            invariant
                0 <= i <= own.len(),
                self.wf(),
                labels == grammar_labels(self.grammar()),
                forall|k: int| 0 <= k < i ==> !labels.contains(#[trigger] texts(own@)[k]),
                forall|k: int, l: int| 0 <= k < l < i ==> texts(own@)[k] != texts(own@)[l],
            decreases own.len() - i,
        {
            if self.is_taken(own[i].as_str()) {
                proof {
                    assert(texts(own@)[i as int] == own@[i as int]@);
                }
                return false;
            }
            let mut j: usize = 0;
            while j < i
                invariant
                    0 <= j <= i < own.len(),
                    forall|k: int| 0 <= k < j ==> texts(own@)[k] != texts(own@)[i as int],
                decreases i - j,
            {
                if same(own[j].as_str(), own[i].as_str()) {
                    proof {
                        assert(texts(own@)[j as int] == texts(own@)[i as int]);
                    }
                    return false;
                }
                j = j + 1;
            }
            i = i + 1;
        }
        true
    }

    /// Registers a command: attaches its node under the root and opens a
    /// route to `system` with nothing waiting. The node is the command's
    /// grammar with the settings that the root hands down and with a nested
    /// `help` subcommand. Its name and aliases must be free, and the node
    /// must be one that `clap` accepts.
    pub fn register(&mut self, system: H, matcher: clap::Command)
        requires
            old(self).wf(),
            free(grammar_labels(old(self).grammar()), own_labels(matcher)),
            grammar_accepted(node_of(matcher)),
        ensures
            final(self).wf(),
            final(self).routes() == old(self).routes().push(
                (grammar_name(matcher), system, Seq::<clap::ArgMatches>::empty()),
            ),
            final(self).grammar() == attached(old(self).grammar(), node_of(matcher)),
            grammar_children(final(self).grammar()) == grammar_children(old(self).grammar()).push(
                grammar_name(matcher),
            ),
            grammar_labels(final(self).grammar()) == grammar_labels(old(self).grammar())
                + own_labels(matcher),
            final(self).same_journal(old(self)),
    {
        let id = name_of(&matcher);
        let node = no_binary_name(matcher, true);
        let node = disable_help_flag(node, true);
        let node = disable_help_subcommand(node, true);
        let node = attach(node, command("help"));
        proof {
            lemma_builtins();
            let labels = grammar_labels(self.grammar());
            let own = own_labels(matcher);
            assert(own_labels(node) =~= own);
            assert(own[0] == grammar_name(matcher));
            assert forall|i: int, j: int|
                0 <= i < (labels + own).len() && 0 <= j < (labels + own).len() && i
                    != j implies (labels + own)[i] != (labels + own)[j] by {
                if i < labels.len() && j >= labels.len() {
                    assert(own[j - labels.len()] == (labels + own)[j]);
                    assert(labels.contains(labels[i]));
                } else if j < labels.len() && i >= labels.len() {
                    assert(own[i - labels.len()] == (labels + own)[i]);
                    assert(labels.contains(labels[j]));
                } else if i >= labels.len() && j >= labels.len() {
                    assert(own[i - labels.len()] != own[j - labels.len()]);
                }
            }
            assert(!reserved(grammar_name(matcher))) by {
                if reserved(grammar_name(matcher)) {
                    let k = choose|k: int|
                        0 <= k < reserved_labels().len() && reserved_labels()[k] == grammar_name(
                            matcher,
                        );
                    assert(labels[k] == reserved_labels()[k]);
                    assert(labels.contains(own[0]));
                }
            }
            assert(!self.names().contains(grammar_name(matcher))) by {
                if self.names().contains(grammar_name(matcher)) {
                    assert(labels.contains(own[0]));
                }
            }
        }
        let root = attach(duplicate(&self.matcher), node);
        self.matcher = root;
        self.distribute.push((id, Distribute::new(system)));
        proof {
            let added = (grammar_name(matcher), system, Seq::<clap::ArgMatches>::empty());
            let labels = grammar_labels(old(self).grammar());
            let own = own_labels(matcher);
            assert(self.routes() =~= old(self).routes().push(added));
            assert(self.names() =~= old(self).names().push(grammar_name(matcher)));
            assert(builtins() + old(self).names().push(grammar_name(matcher)) =~= (builtins()
                + old(self).names()).push(grammar_name(matcher)));
            assert(reserved_labels() =~= (labels + own).subrange(0, 5)) by {
                assert(reserved_labels() =~= labels.subrange(0, 5));
            }
            assert forall|i: int| 0 <= i < self.names().len() implies (labels + own).contains(
                #[trigger] self.names()[i],
            ) by {
                if i < old(self).names().len() {
                    assert(labels.contains(old(self).names()[i]));
                    let k = choose|k: int|
                        0 <= k < labels.len() && labels[k] == old(self).names()[i];
                    assert((labels + own)[k] == self.names()[i]);
                } else {
                    assert((labels + own)[labels.len() as int] == own[0]);
                }
            }
        }
    }

    /// Registers a command where its name and aliases are free, as
    /// `register` does, and says whether it did: a command of which a label
    /// is reserved or registered, or occurs twice, is turned away, and
    /// nothing changes.
    pub fn try_register(&mut self, system: H, matcher: clap::Command) -> (r: bool)
        requires
            old(self).wf(),
            grammar_accepted(node_of(matcher)),
        ensures
            final(self).wf(),
            final(self).same_journal(old(self)),
            r == free(grammar_labels(old(self).grammar()), own_labels(matcher)),
            r ==> final(self).routes() == old(self).routes().push(
                (grammar_name(matcher), system, Seq::<clap::ArgMatches>::empty()),
            ) && final(self).grammar() == attached(old(self).grammar(), node_of(matcher))
                && grammar_children(final(self).grammar()) == grammar_children(
                old(self).grammar(),
            ).push(grammar_name(matcher)) && grammar_labels(final(self).grammar())
                == grammar_labels(old(self).grammar()) + own_labels(matcher),
            !r ==> final(self).same_registry(old(self)),
    {
        let mut own: Vec<String> = Vec::new();
        own.push(name_of(&matcher));
        let aliases = aliases_of(&matcher);
        let mut i: usize = 0;
        while i < aliases.len()
            invariant
                0 <= i <= aliases.len(),
                own@.len() == i + 1,
                texts(aliases@) == grammar_aliases(matcher),
                texts(own@) == seq![grammar_name(matcher)] + grammar_aliases(matcher).take(i as int),
            decreases aliases.len() - i,
        {
            let next = aliases[i].clone();
            proof {
                assert(texts(aliases@)[i as int] == aliases@[i as int]@);
                let before = seq![grammar_name(matcher)] + grammar_aliases(matcher).take(i as int);
                let after = seq![grammar_name(matcher)] + grammar_aliases(matcher).take(
                    i as int + 1,
                );
                assert forall|k: int| 0 <= k < i + 2 implies texts(own@.push(next))[k]
                    == after[k] by {
                    if k <= i {
                        assert(texts(own@.push(next))[k] == texts(own@)[k]);
                        assert(before[k] == after[k]);
                    } else {
                        assert(own@.push(next)[k] == next);
                    }
                }
                assert(texts(own@.push(next)) =~= after);
            }
            own.push(next);
            i = i + 1;
        }
        proof {
            assert(grammar_aliases(matcher).take(aliases@.len() as int) =~= grammar_aliases(
                matcher,
            ));
            assert(texts(aliases@).len() == aliases@.len());
        }
        if self.is_free(&own) {
            self.register(system, matcher);
            true
        } else {
            false
        }
    }

    /// Puts `args` behind the arguments that wait for the command `bin` and
    /// returns its handler; an error where no such command is registered.
    pub fn push(&mut self, bin: &str, args: clap::ArgMatches) -> (r: Result<&H, ()>)
        requires
            old(self).wf(),
        ensures
            final(self).wf(),
            final(self).same_journal(old(self)),
            final(self).grammar() == old(self).grammar(),
            match slot(old(self).names(), bin@) {
                Some(i) => {
                    &&& r is Ok
                    &&& *r->Ok_0 == old(self).routes()[i].1
                    &&& final(self).routes() == old(self).routes().update(
                        i,
                        (
                            old(self).routes()[i].0,
                            old(self).routes()[i].1,
                            old(self).routes()[i].2.push(args),
                        ),
                    )
                },
                None => r is Err && final(self).routes() == old(self).routes(),
            },
    {
        match self.position(bin) {
            Some(i) => {
                self.distribute[i].1.push(args);
                proof {
                    assert(self.routes() =~= old(self).routes().update(
                        i as int,
                        (
                            old(self).routes()[i as int].0,
                            old(self).routes()[i as int].1,
                            old(self).routes()[i as int].2.push(args),
                        ),
                    ));
                    assert(self.names() =~= old(self).names());
                }
                Ok(self.distribute[i].1.system_id())
            },
            None => Err(()),
        }
    }

    /// Takes out the arguments that wait for the command `bin`, oldest
    /// first; none where no such command is registered.
    pub fn read(&mut self, bin: &str) -> (r: Vec<clap::ArgMatches>)
        requires
            old(self).wf(),
        ensures
            final(self).wf(),
            final(self).same_journal(old(self)),
            final(self).grammar() == old(self).grammar(),
            match slot(old(self).names(), bin@) {
                Some(i) => {
                    &&& r@ == old(self).routes()[i].2
                    &&& final(self).routes() == old(self).routes().update(
                        i,
                        (
                            old(self).routes()[i].0,
                            old(self).routes()[i].1,
                            Seq::<clap::ArgMatches>::empty(),
                        ),
                    )
                },
                None => r@ == Seq::<clap::ArgMatches>::empty() && final(self).routes() == old(
                    self,
                ).routes(),
            },
    {
        match self.position(bin) {
            Some(i) => {
                let out = self.distribute[i].1.read();
                proof {
                    assert(self.routes() =~= old(self).routes().update(
                        i as int,
                        (
                            old(self).routes()[i as int].0,
                            old(self).routes()[i as int].1,
                            Seq::<clap::ArgMatches>::empty(),
                        ),
                    ));
                    assert(self.names() =~= old(self).names());
                }
                out
            },
            None => Vec::new(),
        }
    }
}

impl<H> Actuator<H> {
    /// Splits `input` into words as a shell does and resolves them against
    /// the grammar: the selected command and the matches below it, or `None`
    /// where the words name no command or break its grammar.
    pub fn matcher(&self, input: &str) -> (r: Option<(String, clap::ArgMatches)>)
        requires
            self.wf(),
        ensures
            match r {
                Some((bin, args)) => resolved(parsed(self.grammar(), shell_words(input@))) == Some(
                    (bin@, args),
                ),
                None => resolved(parsed(self.grammar(), shell_words(input@))) is None,
            },
    {
        let arguments = words(input);
        resolve(parse(duplicate(&self.matcher), arguments))
    }

    /// The usage text of the whole grammar.
    pub fn help(&self) -> (r: String)
        requires
            self.wf(),
        ensures
            r@ == rendered(self.grammar()),
    {
        render(duplicate(&self.matcher))
    }

    /// The usage text of the command that `bin` names; the empty text where
    /// the grammar holds no such command.
    pub fn subcommand_help(&self, bin: &str) -> (r: String)
        requires
            self.wf(),
        ensures
            r@ == help_of(self.grammar(), bin@),
    {
        match find(&self.matcher, bin) {
            Some(node) => render(node),
            None => String::new(),
        }
    }
}

impl<H> Actuator<H> {
    /// The grammar of a well-formed console holds no more than one node for
    /// any command name.
    pub proof fn lemma_one_node_per_name(&self)
        requires
            self.wf(),
        ensures
            grammar_children(self.grammar()).no_duplicates(),
    {
        lemma_builtins();
        let all = builtins() + self.names();
        assert forall|i: int, j: int| 0 <= i < all.len() && 0 <= j < all.len() && i != j implies all[i]
            != all[j] by {
            if i < 3 && j >= 3 {
                assert(reserved(builtins()[i]));
                assert(!reserved(self.names()[j - 3]));
            } else if j < 3 && i >= 3 {
                assert(reserved(builtins()[j]));
                assert(!reserved(self.names()[i - 3]));
            } else if i < 3 && j < 3 {
                assert(builtins()[i] != builtins()[j]);
            } else {
                assert(self.names()[i - 3] != self.names()[j - 3]);
            }
        }
    }

    /// A command whose name is reserved or registered cannot be registered:
    /// its labels are not free, so that `register` cannot be called with it
    /// and `try_register` turns it away, whatever was or was not submitted
    /// before.
    pub proof fn lemma_registered_once(&self, matcher: clap::Command)
        requires
            self.wf(),
            reserved(grammar_name(matcher)) || self.names().contains(grammar_name(matcher)),
        ensures
            !free(grammar_labels(self.grammar()), own_labels(matcher)),
    {
        lemma_builtins();
        let labels = grammar_labels(self.grammar());
        let name = grammar_name(matcher);
        assert(own_labels(matcher)[0] == name);
        if reserved(name) {
            let k = choose|k: int| 0 <= k < reserved_labels().len() && reserved_labels()[k] == name;
            assert(labels[k] == reserved_labels()[k]);
        } else {
            let i = choose|i: int| 0 <= i < self.names().len() && self.names()[i] == name;
            assert(labels.contains(self.names()[i]));
        }
        lemma_taken_is_not_free(labels, own_labels(matcher), 0);
    }

    /// Every registered command has a node in the grammar, and every node
    /// but those of the built-in commands belongs to a registered command.
    pub proof fn lemma_routes_and_nodes(&self, name: Seq<char>)
        requires
            self.wf(),
        ensures
            self.names().contains(name) ==> grammar_children(self.grammar()).contains(name),
            grammar_children(self.grammar()).contains(name) ==> builtins().contains(name)
                || self.names().contains(name),
            self.names().contains(name) ==> !builtins().contains(name),
    {
        lemma_builtins();
        let all = builtins() + self.names();
        if self.names().contains(name) {
            let i = choose|i: int| 0 <= i < self.names().len() && self.names()[i] == name;
            assert(all[3 + i] == name);
            if builtins().contains(name) {
                let j = choose|j: int| 0 <= j < builtins().len() && builtins()[j] == name;
                assert(reserved(builtins()[j]));
                assert(!reserved(self.names()[i]));
            }
        }
        if all.contains(name) {
            let k = choose|k: int| 0 <= k < all.len() && all[k] == name;
            if k < 3 {
                assert(builtins()[k] == name);
            } else {
                assert(self.names()[k - 3] == name);
            }
        }
    }
}

} // verus!
