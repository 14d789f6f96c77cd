//! Input-line history: an append-only list of submitted lines and a cursor
//! that walks it backward and forward.

use vstd::prelude::*;
use crate::record::last_of;
use crate::text::{texts, trim, trimmed};

verus! {

/// Where a step back lands: on the newest line when no recall is in
/// progress, else one line earlier, stopping at the oldest.
pub open spec fn back_of(cursor: Option<usize>, len: nat) -> nat {
    match cursor {
        Some(i) => if i == 0 {
            0
        } else {
            (i - 1) as nat
        },
        None => last_of(len),
    }
}

/// Where a step forward lands: one past the newest line when no recall is
/// in progress, else one line later.
pub open spec fn forward_of(cursor: Option<usize>, len: nat) -> nat {
    match cursor {
        Some(i) => (i + 1) as nat,
        None => len,
    }
}

/// The line at `index`, where there is one.
pub open spec fn recalled(entries: Seq<Seq<char>>, index: nat) -> Option<Seq<char>> {
    if index < entries.len() {
        Some(entries[index as int])
    } else {
        None
    }
}

/// The first step back after a push lands on the line that was pushed.
pub proof fn lemma_recall_newest(entries: Seq<Seq<char>>, line: Seq<char>)
    ensures
        recalled(entries.push(line), back_of(None, entries.push(line).len())) == Some(line),
{
}

/// A step forward from the newest line, from the live edge or on an empty
/// history lands beyond the lines, where the recall ends.
pub proof fn lemma_recall_ends(entries: Seq<Seq<char>>, cursor: Option<usize>)
    requires
        match cursor {
            Some(i) => i == last_of(entries.len()),
            None => true,
        },
    ensures
        forward_of(cursor, entries.len()) >= entries.len(),
{
}

/// A step back and then a step forward land on the line where the recall
/// stood, wherever it stood on a line that is not the oldest.
pub proof fn lemma_recall_back_and_forth(entries: Seq<Seq<char>>, cursor: usize)
    requires
        0 < cursor < entries.len(),
    ensures
        forward_of(Some(back_of(Some(cursor), entries.len()) as usize), entries.len()) == cursor,
{
}

/// The submitted lines, oldest first, and the position of a recall in
/// progress.
pub struct History {
    index: Option<usize>,
    value: Vec<String>,
}

impl Default for History {
    /// The empty history, with no recall in progress.
    fn default() -> (r: Self)
        ensures
            r.wf(),
            r.entries() == Seq::<Seq<char>>::empty(),
            r.cursor() is None,
    {
        let r = History { index: None, value: Vec::new() };
        assert(r.entries() =~= Seq::<Seq<char>>::empty());
        r
    }
}

impl History {
    /// The submitted lines, oldest first.
    pub closed spec fn entries(&self) -> Seq<Seq<char>> {
        texts(self.value@)
    }

    /// The recall position; `None` at the live edge.
    pub closed spec fn cursor(&self) -> Option<usize> {
        self.index
    }

    /// A recall position never lies beyond the newest line.
    pub open spec fn wf(&self) -> bool {
        match self.cursor() {
            Some(i) => i <= last_of(self.entries().len()),
            None => true,
        }
    }

    /// Appends `value` without its surrounding whitespace and ends any
    /// recall in progress.
    pub fn push(&mut self, value: &str)
        ensures
            final(self).wf(),
            final(self).entries() == old(self).entries().push(trimmed(value@)),
            final(self).cursor() is None,
    {
        let line = trim(value).to_string();
        self.index = None;
        self.value.push(line);
        assert(self.entries() =~= old(self).entries().push(trimmed(value@)));
    }

    /// Steps the cursor back and returns the line it lands on; `None` where
    /// the history is empty.
    pub fn roll_back(&mut self) -> (r: Option<&String>)
        requires
            old(self).wf(),
        ensures
            final(self).wf(),
            final(self).entries() == old(self).entries(),
            final(self).cursor() == Some(
                back_of(old(self).cursor(), old(self).entries().len()) as usize,
            ),
            match r {
                Some(line) => Some(line@),
                None => None,
            } == recalled(
                old(self).entries(),
                back_of(old(self).cursor(), old(self).entries().len()),
            ),
    {
        let index: usize = match self.index {
            Some(index) => index.saturating_sub(1),
            None => self.value.len().saturating_sub(1),
        };
        self.index = Some(index);
        if index < self.value.len() {
            Some(&self.value[index])
        } else {
            None
        }
    }

    /// Steps the cursor forward and returns the line it lands on. A step
    /// beyond the newest line ends the recall and returns `None`; so does
    /// any step on an empty history.
    pub fn roll_forward(&mut self) -> (r: Option<&String>)
        requires
            old(self).wf(),
        ensures
            final(self).wf(),
            final(self).entries() == old(self).entries(),
            final(self).cursor() == if forward_of(old(self).cursor(), old(self).entries().len())
                >= old(self).entries().len() {
                None
            } else {
                Some(forward_of(old(self).cursor(), old(self).entries().len()) as usize)
            },
            match r {
                Some(line) => Some(line@),
                None => None,
            } == recalled(
                old(self).entries(),
                forward_of(old(self).cursor(), old(self).entries().len()),
            ),
    {
        let length: usize = self.value.len();
        let index: usize = match self.index {
            Some(index) => index.saturating_add(1),
            None => length,
        };
        if index >= length {
            self.index = None;
            None
        } else {
            self.index = Some(index);
            Some(&self.value[index])
        }
    }
}

} // verus!
