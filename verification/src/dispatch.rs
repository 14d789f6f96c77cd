//! The dispatch protocol: what the console does with a submitted line, with
//! a batch of lines, and with the feedback of command handlers.

use vstd::prelude::*;
use crate::actuator::{help_of, names_of, reserved, resolved, slot, Actuator};
use crate::event::{Execute, Feedback};
use crate::grammar::{matched, parsed, rendered, selected, shell_words};
use crate::record::{
    blanks, keep_last, lemma_keep_last_append, pushed, tagged, without_last, Level,
};
use crate::text::{lemma_single_line, lemma_trimmed_twice, lines, same, trimmed};

verus! {

/// What became of one submitted line.
#[derive(Debug, PartialEq, Eq)]
pub enum Step<H> {
    /// The line was empty: it was logged and nothing else was done.
    Logged,
    /// The line resolved to no command: an error line was logged.
    Rejected,
    /// The line asked to leave the application.
    Exit,
    /// The line asked to clear the log, and the log was cleared.
    Cleared,
    /// The line asked for help, and this text was logged between two empty
    /// lines.
    Helped(String),
    /// The line's arguments wait for the command of this name, and its
    /// handler is to be run.
    Routed(String, H),
    /// The line resolved to a command of this name, which has no route:
    /// nothing was done.
    Missed(String),
}

/// What became of a batch of submitted lines.
#[derive(Debug, PartialEq, Eq)]
pub struct Batch<H> {
    /// What became of each line that was taken up, in order.
    pub steps: Vec<Step<H>>,
    /// Whether the view is to be refreshed, once: it is, unless the batch
    /// ended on a line that asked to leave the application.
    pub refresh: bool,
}

/// What a resolved command asks of the console.
#[derive(Clone, Copy, PartialEq, Eq, Debug, Structural)]
pub enum Verdict {
    Exit,
    Clear,
    /// The help of the whole grammar.
    Help,
    /// The help of the resolved command.
    HelpOf,
    /// To hand the arguments to the command's handler.
    Route,
}

/// The verdict on a command named `bin` below which `below` was selected.
pub open spec fn verdict(bin: Seq<char>, below: Option<(Seq<char>, clap::ArgMatches)>) -> Verdict {
    if bin == "exit"@ {
        Verdict::Exit
    } else if bin == "clear"@ {
        Verdict::Clear
    } else if bin == "help"@ {
        Verdict::Help
    } else {
        match below {
            Some((name, _)) if name == "help"@ => Verdict::HelpOf,
            _ => Verdict::Route,
        }
    }
}

/// `log` with `text` appended between two empty lines, at `Success`.
pub open spec fn framed(log: Seq<(Seq<char>, Level)>, limit: nat, text: Seq<char>) -> Seq<
    (Seq<char>, Level),
> {
    keep_last(log + blanks(1) + tagged(lines(text), Level::Success) + blanks(1), limit)
}

/// The log after `input` was submitted and `step` became of it.
pub open spec fn log_after<H>(
    log: Seq<(Seq<char>, Level)>,
    limit: nat,
    input: Seq<char>,
    step: Step<H>,
) -> Seq<(Seq<char>, Level)> {
    let first = pushed(log, limit, input, Level::Info);
    match step {
        Step::Rejected => pushed(first, limit, "command does not exist"@, Level::Error),
        Step::Cleared => Seq::empty(),
        Step::Helped(text) => framed(first, limit, text@),
        _ => first,
    }
}

/// The history after `input` was submitted and `step` became of it.
pub open spec fn past_after<H>(past: Seq<Seq<char>>, input: Seq<char>, step: Step<H>) -> Seq<
    Seq<char>,
> {
    if step is Logged {
        past
    } else {
        past.push(input)
    }
}

/// What a resolved line shows of itself: the command's name as a text.
pub open spec fn seen(resolved: Option<(String, clap::ArgMatches)>) -> Option<
    (Seq<char>, clap::ArgMatches),
> {
    match resolved {
        Some((bin, args)) => Some((bin@, args)),
        None => None,
    }
}

/// What the grammar makes of a line: its words, split as a shell splits
/// them, parsed and resolved to a command.
pub open spec fn reading(grammar: clap::Command, input: Seq<char>) -> Option<
    (Seq<char>, clap::ArgMatches),
> {
    resolved(parsed(grammar, shell_words(input)))
}

/// Whether `step` is what becomes of a line that resolved to `resolved`, in
/// a console with this grammar and these routes.
pub open spec fn answers<H>(
    grammar: clap::Command,
    routes: Seq<(Seq<char>, H, Seq<clap::ArgMatches>)>,
    resolved: Option<(Seq<char>, clap::ArgMatches)>,
    step: Step<H>,
) -> bool {
    match resolved {
        None => step is Rejected,
        Some((bin, args)) => match verdict(bin, matched(args)) {
            Verdict::Exit => step is Exit,
            Verdict::Clear => step is Cleared,
            Verdict::Help => match step {
                Step::Helped(text) => text@ == rendered(grammar),
                _ => false,
            },
            Verdict::HelpOf => match step {
                Step::Helped(text) => text@ == help_of(grammar, bin),
                _ => false,
            },
            Verdict::Route => match slot(names_of(routes), bin) {
                Some(i) => match step {
                    Step::Routed(name, handler) => name@ == bin && handler == routes[i].1,
                    _ => false,
                },
                None => match step {
                    Step::Missed(name) => name@ == bin,
                    _ => false,
                },
            },
        },
    }
}

/// The routes after a line that resolved to `resolved` was carried out:
/// where it asks for a registered command, its arguments wait for that
/// command behind those that waited before.
pub open spec fn routes_with<H>(
    routes: Seq<(Seq<char>, H, Seq<clap::ArgMatches>)>,
    resolved: Option<(Seq<char>, clap::ArgMatches)>,
) -> Seq<(Seq<char>, H, Seq<clap::ArgMatches>)> {
    match resolved {
        Some((bin, args)) => match (verdict(bin, matched(args)), slot(names_of(routes), bin)) {
            (Verdict::Route, Some(i)) => routes.update(
                i,
                (routes[i].0, routes[i].1, routes[i].2.push(args)),
            ),
            _ => routes,
        },
        None => routes,
    }
}

/// The routes after the first `n` of `inputs` were submitted, one after the
/// other: an empty line leaves them as they are.
pub open spec fn routes_through<H>(
    routes: Seq<(Seq<char>, H, Seq<clap::ArgMatches>)>,
    grammar: clap::Command,
    inputs: Seq<Seq<char>>,
    n: nat,
) -> Seq<(Seq<char>, H, Seq<clap::ArgMatches>)>
    decreases n,
{
    if n == 0 {
        routes
    } else {
        let before = routes_through(routes, grammar, inputs, (n - 1) as nat);
        if inputs[n - 1].len() == 0 {
            before
        } else {
            routes_with(before, reading(grammar, inputs[n - 1]))
        }
    }
}

/// Whether `after` has the routes of `before`, each with the same name and
/// handler, and with what waited before still waiting first.
pub open spec fn grown<H>(
    before: Seq<(Seq<char>, H, Seq<clap::ArgMatches>)>,
    after: Seq<(Seq<char>, H, Seq<clap::ArgMatches>)>,
) -> bool {
    &&& after.len() == before.len()
    &&& forall|i: int|
        0 <= i < before.len() ==> {
            &&& (#[trigger] after[i]).0 == before[i].0
            &&& after[i].1 == before[i].1
            &&& before[i].2.is_prefix_of(after[i].2)
        }
}

/// The log after the first `steps.len()` of `inputs` were submitted, one
/// after the other, and `steps` became of them.
pub open spec fn log_through<H>(
    log: Seq<(Seq<char>, Level)>,
    limit: nat,
    inputs: Seq<Seq<char>>,
    steps: Seq<Step<H>>,
) -> Seq<(Seq<char>, Level)>
    decreases steps.len(),
{
    if steps.len() == 0 {
        log
    } else {
        log_after(
            log_through(log, limit, inputs, steps.drop_last()),
            limit,
            inputs[steps.len() - 1],
            steps.last(),
        )
    }
}

/// The history after the first `steps.len()` of `inputs` were submitted and
/// `steps` became of them.
pub open spec fn past_through<H>(
    past: Seq<Seq<char>>,
    inputs: Seq<Seq<char>>,
    steps: Seq<Step<H>>,
) -> Seq<Seq<char>>
    decreases steps.len(),
{
    if steps.len() == 0 {
        past
    } else {
        past_after(
            past_through(past, inputs, steps.drop_last()),
            inputs[steps.len() - 1],
            steps.last(),
        )
    }
}

/// The lines of a batch as they are submitted: each without its surrounding
/// whitespace.
pub open spec fn inputs_of(batch: Seq<Execute>) -> Seq<Seq<char>> {
    Seq::new(batch.len(), |i: int| trimmed(batch[i].0@))
}

/// The log after one feedback.
pub open spec fn log_fed(log: Seq<(Seq<char>, Level)>, limit: nat, event: Feedback) -> Seq<
    (Seq<char>, Level),
> {
    match event {
        Feedback::Append(message, level) => pushed(log, limit, message@, level),
        Feedback::Replace(message, level) => keep_last(
            without_last(log) + tagged(lines(message@), level),
            limit,
        ),
    }
}

/// The log after each of `events`, one after the other.
pub open spec fn log_fed_all(log: Seq<(Seq<char>, Level)>, limit: nat, events: Seq<Feedback>) -> Seq<
    (Seq<char>, Level),
>
    decreases events.len(),
{
    if events.len() == 0 {
        log
    } else {
        log_fed(log_fed_all(log, limit, events.drop_last()), limit, events.last())
    }
}

/// What the command `bin`, resolved with `args`, asks of the console.
pub fn classify(bin: &str, args: &clap::ArgMatches) -> (r: Verdict)
    ensures
        r == verdict(bin@, matched(*args)),
{
    if same(bin, "exit") {
        Verdict::Exit
    } else if same(bin, "clear") {
        Verdict::Clear
    } else if same(bin, "help") {
        Verdict::Help
    } else {
        match selected(args) {
            Some((name, _)) => if same(name.as_str(), "help") {
                Verdict::HelpOf
            } else {
                Verdict::Route
            },
            None => Verdict::Route,
        }
    }
}

impl<H: Copy> Actuator<H> {
    /// Logs `text` between two empty lines, at `Success`.
    pub fn show_help(&mut self, text: &str)
        requires
            old(self).wf(),
        ensures
            final(self).wf(),
            final(self).log() == framed(old(self).log(), old(self).limit(), text@),
            final(self).limit() == old(self).limit(),
            final(self).past() == old(self).past(),
            final(self).cursor() == old(self).cursor(),
            final(self).same_registry(old(self)),
    {
        let ghost log = self.log();
        let ghost limit = self.limit();
        let ghost body = tagged(lines(text@), Level::Success);
        self.push_empty_record(1);
        self.push_record(text, Level::Success);
        self.push_empty_record(1);
        proof {
            lemma_keep_last_append(log + blanks(1), body, limit);
            lemma_keep_last_append(log + blanks(1) + body, blanks(1), limit);
        }
    }

    /// Carries out what a resolved line asks: `resolved` is what the grammar
    /// made of the line.
    pub fn dispatch(&mut self, resolved: Option<(String, clap::ArgMatches)>) -> (r: Step<H>)
        requires
            old(self).wf(),
        ensures
            final(self).wf(),
            final(self).limit() == old(self).limit(),
            final(self).past() == old(self).past(),
            final(self).cursor() == old(self).cursor(),
            final(self).grammar() == old(self).grammar(),
            answers(old(self).grammar(), old(self).routes(), seen(resolved), r),
            final(self).routes() == routes_with(old(self).routes(), seen(resolved)),
            final(self).log() == match r {
                Step::Rejected => pushed(
                    old(self).log(),
                    old(self).limit(),
                    "command does not exist"@,
                    Level::Error,
                ),
                Step::Cleared => Seq::empty(),
                Step::Helped(text) => framed(old(self).log(), old(self).limit(), text@),
                _ => old(self).log(),
            },
    {
        match resolved {
            None => {
                self.push_record("command does not exist", Level::Error);
                Step::Rejected
            },
            Some((bin, args)) => {
                match classify(bin.as_str(), &args) {
                    Verdict::Exit => Step::Exit,
                    Verdict::Clear => {
                        self.clear();
                        Step::Cleared
                    },
                    Verdict::Help => {
                        let help = self.help();
                        self.show_help(help.as_str());
                        Step::Helped(help)
                    },
                    Verdict::HelpOf => {
                        let help = self.subcommand_help(bin.as_str());
                        self.show_help(help.as_str());
                        Step::Helped(help)
                    },
                    Verdict::Route => {
                        match self.push(bin.as_str(), args) {
                            Ok(id) => {
                                let handler = *id;
                                Step::Routed(bin, handler)
                            },
                            Err(_) => Step::Missed(bin),
                        }
                    },
                }
            },
        }
    }
}

/// The built-in commands ask for what their names say, whatever was
/// selected below them.
pub proof fn lemma_verdicts(below: Option<(Seq<char>, clap::ArgMatches)>)
    ensures
        verdict("exit"@, below) == Verdict::Exit,
        verdict("clear"@, below) == Verdict::Clear,
        verdict("help"@, below) == Verdict::Help,
{
    reveal_strlit("exit");
    reveal_strlit("clear");
    reveal_strlit("help");
    assert("exit"@[0] == 'e');
    assert("clear"@[0] == 'c');
    assert("help"@[0] == 'h');
}

/// A command whose name is not reserved asks for its own help where `help`
/// was selected below it, and for its handler otherwise.
pub proof fn lemma_verdict_of_command(bin: Seq<char>, below: Option<(Seq<char>, clap::ArgMatches)>)
    requires
        !reserved(bin),
    ensures
        verdict(bin, below) == match below {
            Some((name, _)) if name == "help"@ => Verdict::HelpOf,
            _ => Verdict::Route,
        },
{
}

/// Of a batch of which one line was taken up, the log, the history and the
/// routes are what that line made of them.
pub proof fn lemma_one_step<H>(
    log: Seq<(Seq<char>, Level)>,
    limit: nat,
    past: Seq<Seq<char>>,
    routes: Seq<(Seq<char>, H, Seq<clap::ArgMatches>)>,
    grammar: clap::Command,
    inputs: Seq<Seq<char>>,
    steps: Seq<Step<H>>,
)
    requires
        steps.len() == 1,
    ensures
        log_through(log, limit, inputs, steps) == log_after(log, limit, inputs[0], steps[0]),
        past_through(past, inputs, steps) == past_after(past, inputs[0], steps[0]),
        routes_through(routes, grammar, inputs, 1) == if inputs[0].len() == 0 {
            routes
        } else {
            routes_with(routes, reading(grammar, inputs[0]))
        },
{
    reveal_with_fuel(log_through, 2);
    reveal_with_fuel(past_through, 2);
    reveal_with_fuel(routes_through, 2);
    assert(steps.drop_last().len() == 0);
}

/// An empty line adds one empty line at `Info` to the log and leaves the
/// history as it was.
pub proof fn lemma_empty_line<H>(log: Seq<(Seq<char>, Level)>, limit: nat, past: Seq<Seq<char>>)
    ensures
        log_after(log, limit, Seq::<char>::empty(), Step::<H>::Logged) == keep_last(
            log.push((Seq::<char>::empty(), Level::Info)),
            limit,
        ),
        past_after(past, Seq::<char>::empty(), Step::<H>::Logged) == past,
{
    lemma_single_line(Seq::<char>::empty());
    assert(log + tagged(seq![Seq::<char>::empty()], Level::Info) =~= log.push(
        (Seq::<char>::empty(), Level::Info),
    ));
}

/// A line without a line feed that resolves to no command adds itself at
/// `Info` and one line at `Error` to the log, and enters the history.
pub proof fn lemma_rejected_line<H>(
    log: Seq<(Seq<char>, Level)>,
    limit: nat,
    past: Seq<Seq<char>>,
    input: Seq<char>,
)
    requires
        forall|k: int| 0 <= k < input.len() ==> input[k] != '\n',
    ensures
        log_after(log, limit, input, Step::<H>::Rejected) == keep_last(
            log.push((input, Level::Info)).push(("command does not exist"@, Level::Error)),
            limit,
        ),
        past_after(past, input, Step::<H>::Rejected) == past.push(input),
{
    let said = "command does not exist"@;
    reveal_strlit("command does not exist");
    lemma_single_line(input);
    lemma_single_line(said);
    let first = tagged(seq![input], Level::Info);
    let second = tagged(seq![said], Level::Error);
    lemma_keep_last_append(log + first, second, limit);
    assert(log + first + second =~= log.push((input, Level::Info)).push((said, Level::Error)));
}

/// A route list that grew twice grew.
pub proof fn lemma_grown_twice<H>(
    a: Seq<(Seq<char>, H, Seq<clap::ArgMatches>)>,
    b: Seq<(Seq<char>, H, Seq<clap::ArgMatches>)>,
    c: Seq<(Seq<char>, H, Seq<clap::ArgMatches>)>,
)
    requires
        grown(a, b),
        grown(b, c),
    ensures
        grown(a, c),
{
    assert forall|i: int| 0 <= i < a.len() implies {
        &&& (#[trigger] c[i]).0 == a[i].0
        &&& c[i].1 == a[i].1
        &&& a[i].2.is_prefix_of(c[i].2)
    } by {
        assert(b[i].0 == a[i].0);
        assert(a[i].2.is_prefix_of(b[i].2));
        assert(b[i].2.is_prefix_of(c[i].2));
        assert(a[i].2 =~= c[i].2.subrange(0, a[i].2.len() as int));
    }
}

/// Whatever a line resolved to, carrying it out leaves the routes their
/// names and handlers and what waited for them.
pub proof fn lemma_routes_with_grows<H>(
    routes: Seq<(Seq<char>, H, Seq<clap::ArgMatches>)>,
    resolved: Option<(Seq<char>, clap::ArgMatches)>,
)
    requires
        names_of(routes).no_duplicates(),
    ensures
        grown(routes, routes_with(routes, resolved)),
        names_of(routes_with(routes, resolved)) == names_of(routes),
{
    let after = routes_with(routes, resolved);
    assert forall|i: int| 0 <= i < routes.len() implies {
        &&& (#[trigger] after[i]).0 == routes[i].0
        &&& after[i].1 == routes[i].1
        &&& routes[i].2.is_prefix_of(after[i].2)
    } by {
        assert(routes[i].2 =~= routes[i].2.subrange(0, routes[i].2.len() as int));
        if after[i] != routes[i] {
            assert(routes[i].2 =~= after[i].2.subrange(0, routes[i].2.len() as int));
        }
    }
    assert(names_of(after) =~= names_of(routes));
}

/// Whatever lines were submitted, the routes kept their names and handlers
/// and what waited for them.
pub proof fn lemma_routes_through_grows<H>(
    routes: Seq<(Seq<char>, H, Seq<clap::ArgMatches>)>,
    grammar: clap::Command,
    inputs: Seq<Seq<char>>,
    n: nat,
)
    requires
        names_of(routes).no_duplicates(),
    ensures
        grown(routes, routes_through(routes, grammar, inputs, n)),
        names_of(routes_through(routes, grammar, inputs, n)) == names_of(routes),
    decreases n,
{
    if n == 0 {
        assert forall|i: int| 0 <= i < routes.len() implies (#[trigger] routes[i]).2.is_prefix_of(
            routes[i].2,
        ) by {
            assert(routes[i].2 =~= routes[i].2.subrange(0, routes[i].2.len() as int));
        }
    } else {
        let before = routes_through(routes, grammar, inputs, (n - 1) as nat);
        lemma_routes_through_grows(routes, grammar, inputs, (n - 1) as nat);
        if inputs[n - 1].len() != 0 {
            lemma_routes_with_grows(before, reading(grammar, inputs[n - 1]));
            lemma_grown_twice(routes, before, routes_through(routes, grammar, inputs, n));
        }
    }
}

/// What becomes of a line depends on the routes only by their names and
/// handlers.
pub proof fn lemma_answers_by_names<H>(
    grammar: clap::Command,
    a: Seq<(Seq<char>, H, Seq<clap::ArgMatches>)>,
    b: Seq<(Seq<char>, H, Seq<clap::ArgMatches>)>,
    resolved: Option<(Seq<char>, clap::ArgMatches)>,
    step: Step<H>,
)
    requires
        grown(a, b),
    ensures
        answers(grammar, a, resolved, step) == answers(grammar, b, resolved, step),
{
    assert(names_of(a) =~= names_of(b));
}

impl<H: Copy> Actuator<H> {
    /// Takes one submitted line through the protocol: the line, without its
    /// surrounding whitespace, is logged; an empty one ends there; any other
    /// enters the history, is resolved against the grammar, and what it
    /// resolves to is carried out.
    pub fn submit(&mut self, line: &Execute) -> (r: Step<H>)
        requires
            old(self).wf(),
        ensures
            final(self).wf(),
            final(self).limit() == old(self).limit(),
            final(self).grammar() == old(self).grammar(),
            r is Logged <==> trimmed(line.0@).len() == 0,
            final(self).log() == log_after(
                old(self).log(),
                old(self).limit(),
                trimmed(line.0@),
                r,
            ),
            final(self).past() == past_after(old(self).past(), trimmed(line.0@), r),
            final(self).cursor() == if r is Logged {
                old(self).cursor()
            } else {
                None
            },
            !(r is Logged) ==> answers(
                old(self).grammar(),
                old(self).routes(),
                reading(old(self).grammar(), trimmed(line.0@)),
                r,
            ),
            final(self).routes() == if r is Logged {
                old(self).routes()
            } else {
                routes_with(old(self).routes(), reading(old(self).grammar(), trimmed(line.0@)))
            },
    {
        let input = line.trim();
        self.push_record(input, Level::Info);
        if same(input, "") {
            proof {
                reveal_strlit("");
            }
            return Step::Logged;
        }
        proof {
            reveal_strlit("");
            assert(input@.len() != 0) by {
                if input@.len() == 0 {
                    assert(input@ =~= ""@);
                }
            }
            lemma_trimmed_twice(line.0@);
        }
        self.push_history(input);
        let resolved = self.matcher(input);
        self.dispatch(resolved)
    }

    /// Takes a batch of submitted lines through the protocol, one after the
    /// other, and returns what became of each. A line that asks to leave the
    /// application ends the batch: the lines behind it are not taken up, and
    /// the view is not refreshed.
    pub fn execute(&mut self, batch: &Vec<Execute>) -> (r: Batch<H>)
        requires
            old(self).wf(),
        ensures
            final(self).wf(),
            final(self).limit() == old(self).limit(),
            final(self).grammar() == old(self).grammar(),
            r.steps@.len() <= batch@.len(),
            forall|i: int|
                0 <= i < r.steps@.len() && r.steps@[i] is Exit ==> i == r.steps@.len() - 1,
            r.steps@.len() < batch@.len() ==> r.steps@.len() > 0 && r.steps@.last() is Exit,
            r.refresh == !(r.steps@.len() > 0 && r.steps@.last() is Exit),
            forall|i: int|
                0 <= i < r.steps@.len() ==> (r.steps@[i] is Logged <==> inputs_of(
                    batch@,
                )[i].len() == 0),
            final(self).log() == log_through(
                old(self).log(),
                old(self).limit(),
                inputs_of(batch@),
                r.steps@,
            ),
            final(self).past() == past_through(old(self).past(), inputs_of(batch@), r.steps@),
            final(self).cursor() == if forall|i: int|
                0 <= i < r.steps@.len() ==> r.steps@[i] is Logged {
                old(self).cursor()
            } else {
                None
            },
            forall|i: int|
                0 <= i < r.steps@.len() && inputs_of(batch@)[i].len() != 0 ==> answers(
                    old(self).grammar(),
                    old(self).routes(),
                    reading(old(self).grammar(), inputs_of(batch@)[i]),
                    #[trigger] r.steps@[i],
                ),
            final(self).routes() == routes_through(
                old(self).routes(),
                old(self).grammar(),
                inputs_of(batch@),
                r.steps@.len(),
            ),
            r.steps@.len() == 1 ==> {
                &&& final(self).log() == log_after(
                    old(self).log(),
                    old(self).limit(),
                    inputs_of(batch@)[0],
                    r.steps@[0],
                )
                &&& final(self).past() == past_after(
                    old(self).past(),
                    inputs_of(batch@)[0],
                    r.steps@[0],
                )
                &&& final(self).routes() == if inputs_of(batch@)[0].len() == 0 {
                    old(self).routes()
                } else {
                    routes_with(
                        old(self).routes(),
                        reading(old(self).grammar(), inputs_of(batch@)[0]),
                    )
                }
            },
    {
        let mut steps: Vec<Step<H>> = Vec::new();
        let mut i: usize = 0;
        let mut leaving = false;
        while i < batch.len() && !leaving
            invariant
                0 <= i <= batch.len(),
                steps@.len() == i,
                self.wf(),
                self.limit() == old(self).limit(),
                self.grammar() == old(self).grammar(),
                leaving <==> (i > 0 && steps@.last() is Exit),
                forall|k: int| 0 <= k < steps@.len() && steps@[k] is Exit ==> k == steps@.len() - 1,
                forall|k: int|
                    0 <= k < steps@.len() ==> (steps@[k] is Logged <==> inputs_of(
                        batch@,
                    )[k].len() == 0),
                self.log() == log_through(
                    old(self).log(),
                    old(self).limit(),
                    inputs_of(batch@),
                    steps@,
                ),
                self.past() == past_through(old(self).past(), inputs_of(batch@), steps@),
                self.cursor() == if forall|k: int| 0 <= k < steps@.len() ==> steps@[k] is Logged {
                    old(self).cursor()
                } else {
                    None
                },
                old(self).wf(),
                forall|k: int|
                    0 <= k < steps@.len() && inputs_of(batch@)[k].len() != 0 ==> answers(
                        old(self).grammar(),
                        old(self).routes(),
                        reading(old(self).grammar(), inputs_of(batch@)[k]),
                        #[trigger] steps@[k],
                    ),
                self.routes() == routes_through(
                    old(self).routes(),
                    old(self).grammar(),
                    inputs_of(batch@),
                    i as nat,
                ),
            decreases batch.len() - i,
        {
            let ghost before = self.routes();
            let ghost done = steps@;
            let step = self.submit(&batch[i]);
            proof {
                lemma_routes_through_grows(
                    old(self).routes(),
                    old(self).grammar(),
                    inputs_of(batch@),
                    i as nat,
                );
                lemma_answers_by_names(
                    old(self).grammar(),
                    old(self).routes(),
                    before,
                    reading(old(self).grammar(), inputs_of(batch@)[i as int]),
                    step,
                );
                assert(done.push(step).drop_last() =~= done);
                let now = done.push(step);
                if forall|k: int| 0 <= k < now.len() ==> now[k] is Logged {
                    assert forall|k: int| 0 <= k < done.len() implies done[k] is Logged by {
                        assert(now[k] is Logged);
                    }
                    assert(now[done.len() as int] is Logged);
                } else {
                    if step is Logged {
                        let k = choose|k: int| 0 <= k < now.len() && !(now[k] is Logged);
                        assert(!(done[k] is Logged));
                    }
                }
            }
            leaving = matches!(step, Step::Exit);
            steps.push(step);
            i = i + 1;
        }
        proof {
            if steps@.len() == 1 {
                lemma_one_step(
                    old(self).log(),
                    old(self).limit(),
                    old(self).past(),
                    old(self).routes(),
                    old(self).grammar(),
                    inputs_of(batch@),
                    steps@,
                );
            }
        }
        Batch { steps, refresh: !leaving }
    }

    /// Takes the feedback of command handlers into the log, one after the
    /// other, and returns how often the view is to be refreshed: once for
    /// each.
    pub fn feedback(&mut self, events: &Vec<Feedback>) -> (r: usize)
        requires
            old(self).wf(),
        ensures
            final(self).wf(),
            r == events@.len(),
            final(self).log() == log_fed_all(old(self).log(), old(self).limit(), events@),
            final(self).limit() == old(self).limit(),
            final(self).past() == old(self).past(),
            final(self).cursor() == old(self).cursor(),
            final(self).same_registry(old(self)),
    {
        let mut i: usize = 0;
        while i < events.len()
            invariant
                0 <= i <= events.len(),
                self.wf(),
                self.log() == log_fed_all(old(self).log(), old(self).limit(), events@.take(i as int)),
                self.limit() == old(self).limit(),
                self.past() == old(self).past(),
                self.cursor() == old(self).cursor(),
                self.same_registry(old(self)),
            decreases events.len() - i,
        {
            proof {
                assert(events@.take(i as int + 1).drop_last() =~= events@.take(i as int));
            }
            match &events[i] {
                Feedback::Append(message, level) => {
                    self.push_record(message.as_str(), *level);
                },
                Feedback::Replace(message, level) => {
                    self.replace_last_record(message.as_str(), *level);
                },
            }
            i = i + 1;
        }
        proof {
            assert(events@.take(events@.len() as int) =~= events@);
        }
        i
    }
}

} // verus!
