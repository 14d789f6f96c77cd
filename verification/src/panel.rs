//! The view onto the log: how many lines are shown, which line is the
//! lowest one shown, and how scrolling and new lines move it.

use vstd::prelude::*;
use crate::record::{last_of, shown, window, Level, Record};

verus! {

/// One notch of a scroll wheel.
#[derive(Clone, Copy, PartialEq, Eq, Debug, Structural)]
pub enum Scroll {
    /// Toward older lines.
    Up,
    /// Toward newer lines.
    Down,
    /// A movement that does not scroll by lines.
    Still,
}

/// `a` less `b`, or 0 where `b` is the larger.
pub open spec fn less(a: usize, b: usize) -> usize {
    if a >= b {
        (a - b) as usize
    } else {
        0
    }
}

/// `a` and `b` together, or the largest number where that is less.
pub open spec fn more(a: usize, b: usize) -> usize {
    if a + b <= usize::MAX {
        (a + b) as usize
    } else {
        usize::MAX
    }
}

/// The anchor after one notch of the wheel.
pub open spec fn turned(anchor: usize, step: usize, turn: Scroll) -> usize {
    match turn {
        Scroll::Up => less(anchor, step),
        Scroll::Down => more(anchor, step),
        Scroll::Still => anchor,
    }
}

/// The anchor after each of `turns`, one after the other.
pub open spec fn turned_all(anchor: usize, step: usize, turns: Seq<Scroll>) -> usize
    decreases turns.len(),
{
    if turns.len() == 0 {
        anchor
    } else {
        turned(turned_all(anchor, step, turns.drop_last()), step, turns.last())
    }
}

/// The anchor with which a log of `len` lines is shown on `display` lines:
/// none where the log fits the display or the anchor has reached the newest
/// line; else the anchor, held to the last line of the first screen.
pub open spec fn settled(anchor: Option<usize>, display: usize, len: nat) -> Option<usize> {
    if display >= len {
        None
    } else {
        match anchor {
            Some(v) => if last_of(len) > v {
                if v >= less(display, 1) {
                    Some(v)
                } else {
                    Some(less(display, 1))
                }
            } else {
                None
            },
            None => None,
        }
    }
}

/// The texts of `labels` lines of a display of `display` lines that shows
/// `items`: empty lines first, where there are fewer items than lines.
pub open spec fn laid_out(items: Seq<(Seq<char>, Level)>, display: usize, labels: nat) -> Seq<
    (Seq<char>, Level),
> {
    let start = if display >= items.len() {
        display - items.len()
    } else {
        0
    };
    Seq::new(
        labels,
        |i: int|
            if i < start {
                (Seq::<char>::empty(), Level::Display)
            } else {
                items[i - start]
            },
    )
}

/// The colour in which a line of the given severity is shown: red, green,
/// blue and opacity.
pub open spec fn dye(level: Level) -> (u8, u8, u8, u8) {
    match level {
        Level::Info => (255, 255, 255, 255),
        Level::Success => (0, 255, 0, 255),
        Level::Error => (255, 0, 0, 255),
        Level::Warn => (255, 165, 0, 255),
        Level::Display => (255, 255, 255, 128),
    }
}

/// The view onto the log.
#[derive(Clone, Copy, PartialEq, Eq, Debug, Structural)]
pub struct Panel {
    /// The lowest line shown; `None` follows the newest line.
    pub last_index: Option<usize>,
    /// By how many lines one scroll moves the view.
    pub scroll_step: usize,
    /// How many lines are shown.
    pub max_display: usize,
}

impl Panel {
    /// A view of `max_display` lines that follows the newest line.
    pub fn new(max_display: usize) -> (r: Self)
        ensures
            r.last_index is None,
            r.max_display == max_display,
            r.scroll_step == max_display / 10,
    {
        let mut panel = Panel { last_index: None, scroll_step: 0, max_display: 0 };
        panel.limit_display(max_display);
        panel
    }

    /// Lets the view follow the newest line again.
    pub fn bubble(&mut self)
        ensures
            final(self).last_index is None,
            final(self).scroll_step == old(self).scroll_step,
            final(self).max_display == old(self).max_display,
    {
        self.last_index = None;
    }

    /// Shows `max_display` lines from now on, and scrolls by a tenth of
    /// them.
    pub fn limit_display(&mut self, max_display: usize)
        ensures
            final(self).max_display == max_display,
            final(self).scroll_step == max_display / 10,
            final(self).last_index == old(self).last_index,
    {
        self.max_display = max_display;
        self.scroll_step = max_display / 10;
    }

    /// The colour in which a line of the given severity is shown.
    pub fn dyeing(&self, level: &Level) -> (r: (u8, u8, u8, u8))
        ensures
            r == dye(*level),
    {
        match level {
            Level::Info => (255, 255, 255, 255),
            Level::Success => (0, 255, 0, 255),
            Level::Error => (255, 0, 0, 255),
            Level::Warn => (255, 165, 0, 255),
            Level::Display => (255, 255, 255, 128),
        }
    }

    /// Moves the view one step toward older lines, from the newest line of
    /// the log, at `newest`, where it followed it.
    pub fn scroll_up(&mut self, newest: usize)
        ensures
            final(self).last_index == Some(
                less(
                    match old(self).last_index {
                        Some(v) => v,
                        None => newest,
                    },
                    old(self).scroll_step,
                ),
            ),
            final(self).scroll_step == old(self).scroll_step,
            final(self).max_display == old(self).max_display,
    {
        let last_index: usize = match self.last_index {
            Some(v) => v,
            None => newest,
        };
        self.last_index = Some(last_index.saturating_sub(self.scroll_step));
    }

    /// Moves the view one step toward newer lines; a view that follows the
    /// newest line stays.
    pub fn scroll_down(&mut self)
        ensures
            final(self).last_index == match old(self).last_index {
                Some(v) => Some(more(v, old(self).scroll_step)),
                None => None,
            },
            final(self).scroll_step == old(self).scroll_step,
            final(self).max_display == old(self).max_display,
    {
        self.last_index = match self.last_index {
            Some(v) => Some(v.saturating_add(self.scroll_step)),
            None => None,
        };
    }

    /// Moves the view by the notches of a wheel, one step for each, from the
    /// newest line of the log, at `newest`, where it followed it.
    pub fn scroll_wheel(&mut self, newest: usize, turns: &Vec<Scroll>)
        ensures
            final(self).last_index == Some(
                turned_all(
                    match old(self).last_index {
                        Some(v) => v,
                        None => newest,
                    },
                    old(self).scroll_step,
                    turns@,
                ),
            ),
            final(self).scroll_step == old(self).scroll_step,
            final(self).max_display == old(self).max_display,
    {
        let first: usize = match self.last_index {
            Some(v) => v,
            None => newest,
        };
        let mut last_index: usize = first;
        let mut i: usize = 0;
        while i < turns.len()
            invariant
                0 <= i <= turns.len(),
                last_index == turned_all(first, self.scroll_step, turns@.take(i as int)),
            decreases turns.len() - i,
        {
            proof {
                assert(turns@.take(i as int + 1).drop_last() =~= turns@.take(i as int));
            }
            match turns[i] {
                Scroll::Up => {
                    last_index = last_index.saturating_sub(self.scroll_step);
                },
                Scroll::Down => {
                    last_index = last_index.saturating_add(self.scroll_step);
                },
                Scroll::Still => {},
            }
            i = i + 1;
        }
        proof {
            assert(turns@.take(turns@.len() as int) =~= turns@);
        }
        self.last_index = Some(last_index);
    }

    /// Settles the anchor on the log as it is now and lays the window out
    /// on `labels` lines, the first of which stay empty where the window
    /// holds fewer lines than the display.
    pub fn refresh(&mut self, record: &Record, labels: usize) -> (r: Vec<(String, Level)>)
        requires
            labels <= old(self).max_display,
        ensures
            final(self).last_index == settled(
                old(self).last_index,
                old(self).max_display,
                record@.len(),
            ),
            final(self).scroll_step == old(self).scroll_step,
            final(self).max_display == old(self).max_display,
            shown(r@) == laid_out(
                window(record@, final(self).last_index, old(self).max_display as nat),
                old(self).max_display,
                labels as nat,
            ),
    {
        if self.max_display >= record.len() {
            self.last_index = None;
        }
        if let Some(v) = self.last_index {
            self.last_index = if record.last_index() > v {
                let first_index = self.max_display.saturating_sub(1);
                if v >= first_index {
                    Some(v)
                } else {
                    Some(first_index)
                }
            } else {
                None
            };
        }
        let item = record.get(&self.last_index, &self.max_display);
        let start = self.max_display.saturating_sub(item.len());
        let ghost items = window(record@, self.last_index, self.max_display as nat);
        let mut out: Vec<(String, Level)> = Vec::new();
        let mut i: usize = 0;
        while i < labels
            invariant
                0 <= i <= labels,
                labels <= self.max_display,
                out@.len() == i,
                shown(item@) == items,
                start == less(self.max_display, item.len()),
                shown(out@) == laid_out(items, self.max_display, i as nat),
            decreases labels - i,
        {
            let row = if i < start {
                (String::new(), Level::Display)
            } else {
                let found = &item[i - start];
                (found.0.clone(), found.1)
            };
            proof {
                assert(shown(item@).len() == item@.len());
                if i >= start {
                    assert(shown(item@)[i - start] == (item@[i - start].0@, item@[i - start].1));
                }
                let next = laid_out(items, self.max_display, (i + 1) as nat);
                let so_far = laid_out(items, self.max_display, i as nat);
                assert forall|k: int| 0 <= k < i + 1 implies shown(out@.push(row))[k] == next[k] by {
                    if k < i {
                        assert(shown(out@.push(row))[k] == shown(out@)[k]);
                        assert(so_far[k] == next[k]);
                    } else {
                        assert(out@.push(row)[k] == row);
                    }
                }
                assert(shown(out@.push(row)) =~= next);
            }
            out.push(row);
            i = i + 1;
        }
        out
    }
}

} // verus!
