//! The scrollback log: a bounded first-in, first-out sequence of lines, each
//! tagged with a severity, read through a window that ends at an anchor.

use std::collections::VecDeque;
use vstd::prelude::*;
use crate::text::{lines, split_lines, texts};

verus! {

/// Severity of a logged line. `Display` marks lines that only space the
/// output.
#[derive(Clone, Copy, PartialEq, Eq, Debug, Hash, Structural)]
pub enum Level {
    Info,
    Success,
    Error,
    Warn,
    Display,
}

impl Default for Level {
    fn default() -> (r: Self)
        ensures
            r == Level::Info,
    {
        Level::Info
    }
}

/// Every text of `ls` paired with `level`.
pub open spec fn tagged(ls: Seq<Seq<char>>, level: Level) -> Seq<(Seq<char>, Level)> {
    Seq::new(ls.len(), |i: int| (ls[i], level))
}

/// `n` empty lines at `Display` severity.
pub open spec fn blanks(n: nat) -> Seq<(Seq<char>, Level)> {
    Seq::new(n, |i: int| (Seq::<char>::empty(), Level::Display))
}

/// The last `max` items of `s`, or all of `s` where it holds no more.
pub open spec fn keep_last<T>(s: Seq<T>, max: nat) -> Seq<T> {
    if s.len() <= max {
        s
    } else {
        s.subrange(s.len() - max, s.len() as int)
    }
}

/// `s` without its last item; the empty sequence stays empty.
pub open spec fn without_last<T>(s: Seq<T>) -> Seq<T> {
    if s.len() == 0 {
        s
    } else {
        s.drop_last()
    }
}

/// Index of the newest line of a log of `len` lines; 0 for the empty log.
pub open spec fn last_of(len: nat) -> nat {
    if len == 0 {
        0
    } else {
        (len - 1) as nat
    }
}

/// Index at which a window of `count` lines that ends at `end` begins.
pub open spec fn window_start(end: nat, count: nat) -> nat {
    if end + 1 >= count {
        (end + 1 - count) as nat
    } else {
        0
    }
}

/// Index at which a window anchored at `anchor` ends in a log of `len`
/// lines: the anchor, held back to the newest line.
pub open spec fn window_end(len: nat, anchor: Option<usize>) -> nat {
    match anchor {
        Some(a) if a < last_of(len) => a as nat,
        _ => last_of(len),
    }
}

/// The lines that a read of `count` lines anchored at `anchor` returns. Where
/// the window begins on the line it ends on, the log is returned from its
/// first line through that line.
pub open spec fn window<T>(s: Seq<T>, anchor: Option<usize>, count: nat) -> Seq<T> {
    let end = window_end(s.len(), anchor);
    let start = window_start(end, count);
    if s.len() == 0 || start > end {
        Seq::empty()
    } else if start == end {
        s.subrange(0, end as int + 1)
    } else {
        s.subrange(start as int, end as int + 1)
    }
}

/// What a sequence of stored lines shows: each text with its severity.
pub open spec fn shown(v: Seq<(String, Level)>) -> Seq<(Seq<char>, Level)> {
    Seq::new(v.len(), |i: int| (v[i].0@, v[i].1))
}

/// Keeping the last `max` items twice, with items appended in between,
/// keeps what one cut at the end keeps.
pub proof fn lemma_keep_last_append<T>(a: Seq<T>, b: Seq<T>, max: nat)
    ensures
        keep_last(keep_last(a, max) + b, max) == keep_last(a + b, max),
{
    assert(keep_last(keep_last(a, max) + b, max) =~= keep_last(a + b, max));
}

/// The log after a message was pushed.
pub open spec fn pushed(
    log: Seq<(Seq<char>, Level)>,
    limit: nat,
    message: Seq<char>,
    level: Level,
) -> Seq<(Seq<char>, Level)> {
    keep_last(log + tagged(lines(message), level), limit)
}

/// The log after each of `messages` was pushed, one after the other.
pub open spec fn pushed_all(
    log: Seq<(Seq<char>, Level)>,
    limit: nat,
    messages: Seq<(Seq<char>, Level)>,
) -> Seq<(Seq<char>, Level)>
    decreases messages.len(),
{
    if messages.len() == 0 {
        log
    } else {
        pushed(
            pushed_all(log, limit, messages.drop_last()),
            limit,
            messages.last().0,
            messages.last().1,
        )
    }
}

/// The lines of all of `messages`, each with its message's severity, in
/// the order of the messages.
pub open spec fn all_lines(messages: Seq<(Seq<char>, Level)>) -> Seq<(Seq<char>, Level)>
    decreases messages.len(),
{
    if messages.len() == 0 {
        Seq::empty()
    } else {
        all_lines(messages.drop_last()) + tagged(lines(messages.last().0), messages.last().1)
    }
}

/// After any sequence of pushes the log holds no more lines than its
/// capacity, and what it holds are the newest lines of what it held before
/// followed by every line pushed, in their order.
pub proof fn lemma_pushes_keep_newest(
    log: Seq<(Seq<char>, Level)>,
    limit: nat,
    messages: Seq<(Seq<char>, Level)>,
)
    requires
        log.len() <= limit,
    ensures
        pushed_all(log, limit, messages).len() <= limit,
        pushed_all(log, limit, messages) == keep_last(log + all_lines(messages), limit),
    decreases messages.len(),
{
    if messages.len() == 0 {
        assert(log + all_lines(messages) =~= log);
    } else {
        let before = messages.drop_last();
        let added = tagged(lines(messages.last().0), messages.last().1);
        lemma_pushes_keep_newest(log, limit, before);
        lemma_keep_last_append(log + all_lines(before), added, limit);
        assert(log + all_lines(before) + added =~= log + all_lines(messages));
    }
}

/// A window that ends at an anchor within the log shows the same lines
/// after lines were appended.
pub proof fn lemma_window_stable<T>(s: Seq<T>, added: Seq<T>, anchor: usize, count: nat)
    requires
        anchor < s.len(),
    ensures
        window(s + added, Some(anchor), count) == window(s, Some(anchor), count),
{
    assert(window(s + added, Some(anchor), count) =~= window(s, Some(anchor), count));
}

/// A window holds no more lines than were asked for, but where it begins
/// on the line it ends on.
pub proof fn lemma_window_len<T>(s: Seq<T>, anchor: Option<usize>, count: nat)
    ensures
        window(s, anchor, count).len() <= s.len(),
        window_start(window_end(s.len(), anchor), count) != window_end(s.len(), anchor)
            ==> window(s, anchor, count).len() <= count,
{
}

/// The log: lines with their severity, oldest first, never more than the
/// capacity it was made with.
pub struct Record {
    max: usize,
    value: VecDeque<(String, Level)>,
}

impl View for Record {
    type V = Seq<(Seq<char>, Level)>;

    closed spec fn view(&self) -> Seq<(Seq<char>, Level)> {
        shown(self.value@)
    }
}

impl Default for Record {
    /// The empty log of capacity 0.
    fn default() -> (r: Self)
        ensures
            r.wf(),
            r.limit() == 0,
            r@ == Seq::<(Seq<char>, Level)>::empty(),
    {
        Record::new(0)
    }
}

impl Record {
    /// The capacity that the log was made with.
    pub closed spec fn limit(&self) -> nat {
        self.max as nat
    }

    /// The log holds no more lines than its capacity.
    pub open spec fn wf(&self) -> bool {
        self@.len() <= self.limit()
    }

    pub fn new(max: usize) -> (r: Self)
        ensures
            r.wf(),
            r.limit() == max,
            r@ == Seq::<(Seq<char>, Level)>::empty(),
    {
        let r = Record { max, value: VecDeque::new() };
        assert(r@ =~= Seq::<(Seq<char>, Level)>::empty());
        r
    }

    /// Empties the log; the capacity stays.
    pub fn clear(&mut self)
        ensures
            final(self).wf(),
            final(self).limit() == old(self).limit(),
            final(self)@ == Seq::<(Seq<char>, Level)>::empty(),
    {
        self.value.clear();
        assert(self@ =~= Seq::<(Seq<char>, Level)>::empty());
    }

    /// Appends one line and evicts the oldest where the log is over capacity.
    fn push_line(&mut self, text: String, level: Level)
        requires
            old(self).wf(),
        ensures
            final(self).wf(),
            final(self).limit() == old(self).limit(),
            final(self)@ == keep_last(old(self)@.push((text@, level)), old(self).limit()),
    {
        self.value.push_back((text, level));
        assert(self@ =~= old(self)@.push((text@, level)));
        if self.value.len() > self.max {
            self.value.pop_front();
        }
        assert(self@ =~= keep_last(old(self)@.push((text@, level)), old(self).limit()));
    }

    /// Appends the lines of `message`, each at `level`, and keeps the newest
    /// lines that fit the capacity.
    pub fn push(&mut self, message: &str, level: Level)
        requires
            old(self).wf(),
        ensures
            final(self).wf(),
            final(self).limit() == old(self).limit(),
            final(self)@ == pushed(old(self)@, old(self).limit(), message@, level),
    {
        let parts = split_lines(message);
        let ghost added = tagged(lines(message@), level);
        let mut i: usize = 0;
        while i < parts.len()
            invariant
                0 <= i <= parts.len(),
                texts(parts@) == lines(message@),
                added == tagged(lines(message@), level),
                self.wf(),
                self.limit() == old(self).limit(),
                self@ == keep_last(old(self)@ + added.take(i as int), old(self).limit()),
            decreases parts.len() - i,
        {
            let text = parts[i].clone();
            proof {
                assert(texts(parts@)[i as int] == parts@[i as int]@);
                assert(added.take(i as int + 1) =~= added.take(i as int).push((text@, level)));
                assert(old(self)@ + added.take(i as int).push((text@, level)) =~= (old(self)@
                    + added.take(i as int)).push((text@, level)));
                lemma_keep_last_append(
                    old(self)@ + added.take(i as int),
                    seq![(text@, level)],
                    old(self).limit(),
                );
                assert(self@.push((text@, level)) =~= self@ + seq![(text@, level)]);
                assert((old(self)@ + added.take(i as int)).push((text@, level)) =~= (old(self)@
                    + added.take(i as int)) + seq![(text@, level)]);
            }
            self.push_line(text, level);
            i = i + 1;
        }
        assert(added.take(parts.len() as int) =~= added);
    }

    /// Appends `quantity` empty lines at `Display` severity.
    pub fn push_empty(&mut self, quantity: usize)
        requires
            old(self).wf(),
        ensures
            final(self).wf(),
            final(self).limit() == old(self).limit(),
            final(self)@ == keep_last(old(self)@ + blanks(quantity as nat), old(self).limit()),
    {
        let mut i: usize = 0;
        assert(old(self)@ + blanks(0) =~= old(self)@);
        while i < quantity
            invariant
                0 <= i <= quantity,
                self.wf(),
                self.limit() == old(self).limit(),
                self@ == keep_last(old(self)@ + blanks(i as nat), old(self).limit()),
            decreases quantity - i,
        {
            proof {
                reveal_strlit("");
                lemma_keep_last_append(
                    old(self)@ + blanks(i as nat),
                    tagged(lines(""@), Level::Display),
                    old(self).limit(),
                );
                assert(""@ =~= Seq::<char>::empty());
                assert(""@.subrange(0, 0) =~= Seq::<char>::empty());
                assert(lines(""@) =~= seq![Seq::<char>::empty()]);
                assert(old(self)@ + blanks(i as nat) + tagged(lines(""@), Level::Display)
                    =~= old(self)@ + blanks((i + 1) as nat));
            }
            self.push("", Level::Display);
            i = i + 1;
        }
    }

    /// Takes the newest line out, then appends the lines of `message`.
    pub fn replace_last(&mut self, message: &str, level: Level)
        requires
            old(self).wf(),
        ensures
            final(self).wf(),
            final(self).limit() == old(self).limit(),
            final(self)@ == keep_last(
                without_last(old(self)@) + tagged(lines(message@), level),
                old(self).limit(),
            ),
    {
        self.value.pop_back();
        assert(self@ =~= without_last(old(self)@));
        self.push(message, level);
    }

    /// The window of `quantity` lines that ends at `index`, or at the newest
    /// line where `index` is `None` or lies beyond it; oldest line first.
    pub fn get(&self, index: &Option<usize>, quantity: &usize) -> (r: Vec<(String, Level)>)
        ensures
            shown(r@) == window(self@, *index, *quantity as nat),
    {
        let mut out: Vec<(String, Level)> = Vec::new();
        let len = self.value.len();
        if len == 0 {
            assert(shown(out@) =~= window(self@, *index, *quantity as nat));
            return out;
        }
        let last_index = self.last_index();
        let end = match index {
            Some(v) => if *v < last_index {
                *v
            } else {
                last_index
            },
            None => last_index,
        };
        let start = (end + 1).saturating_sub(*quantity);
        let first = if start == end {
            0
        } else {
            start
        };
        let mut i: usize = first;
        while i <= end
            invariant
                end < len,
                len == self.value@.len(),
                first <= i <= end + 1 || (first > end && i == first),
                first <= end ==> shown(out@) == self@.subrange(first as int, i as int),
                first > end ==> out@.len() == 0,
            decreases end + 1 - i,
        {
            let item = &self.value[i];
            let copy = (item.0.clone(), item.1);
            proof {
                assert(shown(out@.push(copy)) =~= self@.subrange(first as int, i as int + 1));
            }
            out.push(copy);
            i = i + 1;
        }
        assert(shown(out@) =~= window(self@, *index, *quantity as nat));
        out
    }

    pub fn len(&self) -> (r: usize)
        ensures
            r == self@.len(),
    {
        self.value.len()
    }

    /// Index of the newest line; 0 for the empty log.
    pub fn last_index(&self) -> (r: usize)
        ensures
            r == last_of(self@.len()),
    {
        self.value.len().saturating_sub(1)
    }
}

} // verus!
