//! A route: the handler registered for one command, and the arguments that
//! wait for it.

use vstd::prelude::*;

verus! {

/// The route of one command. `H` is what stands for its handler.
pub struct Distribute<H> {
    system: H,
    arguments: Vec<clap::ArgMatches>,
}

impl<H> Distribute<H> {
    /// The handler that the route was made with.
    pub closed spec fn handler(&self) -> H {
        self.system
    }

    /// The arguments that wait for the handler, oldest first.
    pub closed spec fn queue(&self) -> Seq<clap::ArgMatches> {
        self.arguments@
    }

    pub fn new(system: H) -> (r: Self)
        ensures
            r.handler() == system,
            r.queue() == Seq::<clap::ArgMatches>::empty(),
    {
        Distribute { system, arguments: Vec::new() }
    }

    pub fn system_id(&self) -> (r: &H)
        ensures
            *r == self.handler(),
    {
        &self.system
    }

    /// Takes every waiting argument out, oldest first.
    pub fn read(&mut self) -> (r: Vec<clap::ArgMatches>)
        ensures
            r@ == old(self).queue(),
            final(self).queue() == Seq::<clap::ArgMatches>::empty(),
            final(self).handler() == old(self).handler(),
    {
        let mut out: Vec<clap::ArgMatches> = Vec::new();
        core::mem::swap(&mut self.arguments, &mut out);
        out
    }

    /// Puts `value` behind the waiting arguments.
    pub fn push(&mut self, value: clap::ArgMatches)
        ensures
            final(self).queue() == old(self).queue().push(value),
            final(self).handler() == old(self).handler(),
    {
        self.arguments.push(value);
    }
}

} // verus!
