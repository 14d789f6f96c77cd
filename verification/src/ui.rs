//! The edit line and the prompt: what keys do to the text being typed, when
//! the console opens and closes, and what the prompt shows.

use vstd::prelude::*;
use vstd::string::{StrSliceExecFns, StringExecFns};
use crate::actuator::Actuator;
use crate::event::{unticked, Execute};
use crate::history::{back_of, forward_of, recalled};
use crate::panel::Panel;
use crate::record::without_last;
use crate::text::trimmed;

verus! {

/// Whether the console is shown.
#[derive(Clone, Copy, PartialEq, Eq, Debug, Hash, Structural)]
pub enum Console {
    Close,
    Open,
}

impl Default for Console {
    fn default() -> (r: Self)
        ensures
            r == Console::Close,
    {
        Console::Close
    }
}

/// A key as the console tells keys apart.
#[derive(Debug, PartialEq, Eq)]
pub enum Key {
    Backquote,
    Escape,
    Enter,
    Backspace,
    Delete,
    Space,
    /// A key that types this text.
    Character(String),
    Other,
}

/// The text that the prompt is to show.
#[derive(Debug, PartialEq, Eq)]
pub struct PromptRefresh(pub String);

/// The text that the edit line is to hold from now on.
#[derive(Debug, PartialEq, Eq)]
pub struct UpdateCharacter(pub String);

/// The edit line after `key` was pressed on `text`.
pub open spec fn typed(text: Seq<char>, key: Key) -> Seq<char> {
    match key {
        Key::Escape => Seq::empty(),
        Key::Backspace | Key::Delete => without_last(text),
        Key::Space => text + " "@,
        Key::Character(input) => text + input@,
        _ => text,
    }
}

/// The edit line after each of `keys` was pressed, one after the other.
pub open spec fn typed_all(text: Seq<char>, keys: Seq<Key>) -> Seq<char>
    decreases keys.len(),
{
    if keys.len() == 0 {
        text
    } else {
        typed(typed_all(text, keys.drop_last()), keys.last())
    }
}

/// Whether one of `keys` is `Enter`.
pub open spec fn entered(keys: Seq<Key>) -> bool {
    exists|i: int| 0 <= i < keys.len() && #[trigger] keys[i] is Enter
}

/// The text that the last of `updates` sets, or `text` where there is none.
pub open spec fn updated(text: Seq<char>, updates: Seq<UpdateCharacter>) -> Seq<char> {
    if updates.len() == 0 {
        text
    } else {
        updates.last().0@
    }
}

/// Takes the last character off `text`, where there is one.
fn pop(text: &mut String)
    ensures
        final(text)@ == without_last(old(text)@),
{
    let n: usize = text.as_str().unicode_len();
    if n > 0 {
        let kept = text.as_str().substring_char(0, n - 1).to_string();
        *text = kept;
    }
}

impl Console {
    /// The state after `key` was pressed, and what the prompt is to show
    /// where the key changes it: the backquote opens a closed console; the
    /// backquote and escape close an open one and empty the prompt.
    pub fn pressed(self, key: &Key) -> (r: (Console, Option<PromptRefresh>))
        ensures
            r.0 == match (self, *key) {
                (Console::Close, Key::Backquote) => Console::Open,
                (Console::Open, Key::Backquote) | (Console::Open, Key::Escape) => Console::Close,
                _ => self,
            },
            match r.1 {
                Some(prompt) => self == Console::Open && r.0 == Console::Close && prompt.0@
                    == Seq::<char>::empty(),
                None => !(self == Console::Open && r.0 == Console::Close),
            },
    {
        match self {
            Console::Close => match key {
                Key::Backquote => (Console::Open, None),
                _ => (self, None),
            },
            Console::Open => match key {
                Key::Backquote | Key::Escape => (
                    Console::Close,
                    Some(PromptRefresh(String::new())),
                ),
                _ => (self, None),
            },
        }
    }
}

impl PromptRefresh {
    /// The prompt as it is shown: the text between `$ ` and the cursor `_`.
    pub fn text(&self) -> (r: String)
        ensures
            r@ == "$ "@ + self.0@ + "_"@,
    {
        let mut out = String::from_str("$ ");
        out.append(self.0.as_str());
        out.append("_");
        out
    }
}

/// Takes the updates and the keys of one tick into the edit line
/// `character`, and returns the line as it then stands and whether it was
/// submitted. A submitted line leaves the edit line empty.
pub fn received(character: &mut String, updates: &Vec<UpdateCharacter>, keys: &Vec<Key>) -> (r: (
    String,
    bool,
))
    ensures
        r.0@ == typed_all(updated(old(character)@, updates@), keys@),
        r.1 == entered(keys@),
        final(character)@ == if r.1 {
            Seq::<char>::empty()
        } else {
            r.0@
        },
{
    let mut enter = false;
    let mut i: usize = 0;
    while i < updates.len()
        invariant
            0 <= i <= updates.len(),
            character@ == updated(old(character)@, updates@.take(i as int)),
        decreases updates.len() - i,
    {
        *character = updates[i].0.clone();
        proof {
            assert(updates@.take(i as int + 1).last() == updates@[i as int]);
        }
        i = i + 1;
    }
    proof {
        assert(updates@.take(updates@.len() as int) =~= updates@);
    }
    let ghost start = character@;
    let mut j: usize = 0;
    while j < keys.len()
        invariant
            0 <= j <= keys.len(),
            character@ == typed_all(start, keys@.take(j as int)),
            enter == entered(keys@.take(j as int)),
        decreases keys.len() - j,
    {
        proof {
            assert(keys@.take(j as int + 1).drop_last() =~= keys@.take(j as int));
            assert(keys@.take(j as int + 1).last() == keys@[j as int]);
            let now = keys@.take(j as int + 1);
            let before = keys@.take(j as int);
            if entered(before) {
                let k = choose|k: int| 0 <= k < before.len() && #[trigger] before[k] is Enter;
                assert(now[k] is Enter);
            }
            if keys@[j as int] is Enter {
                assert(now[j as int] is Enter);
            }
            if entered(now) && !(keys@[j as int] is Enter) {
                let k = choose|k: int| 0 <= k < now.len() && #[trigger] now[k] is Enter;
                assert(before[k] is Enter);
            }
        }
        match &keys[j] {
            Key::Enter => {
                enter = true;
            },
            Key::Escape => {
                *character = String::new();
            },
            Key::Backspace | Key::Delete => {
                pop(character);
            },
            Key::Space => {
                character.append(" ");
            },
            Key::Character(input) => {
                character.append(input.as_str());
            },
            _ => {},
        }
        j = j + 1;
    }
    proof {
        assert(keys@.take(keys@.len() as int) =~= keys@);
    }
    let value = (character.clone(), enter);
    if enter {
        *character = String::new();
    }
    value
}

/// What follows from the edit line as it stands after a tick: a submitted
/// line lets the view follow the newest line again, is handed on for
/// execution, and empties the prompt; any other is shown in the prompt.
pub fn received_character(panel: &mut Panel, character: String, enter: bool) -> (r: (
    Option<Execute>,
    PromptRefresh,
))
    ensures
        match r.0 {
            Some(line) => enter && line.0@ == trimmed(unticked(character@)),
            None => !enter,
        },
        r.1.0@ == if enter {
            Seq::<char>::empty()
        } else {
            character@
        },
        final(panel).last_index == if enter {
            None
        } else {
            old(panel).last_index
        },
        final(panel).scroll_step == old(panel).scroll_step,
        final(panel).max_display == old(panel).max_display,
{
    if enter {
        panel.bubble();
        (Some(Execute::new(character)), PromptRefresh(String::new()))
    } else {
        (None, PromptRefresh(character))
    }
}

/// Steps the recall back and returns what the prompt and the edit line are
/// to hold: the line that the recall lands on. Nothing changes on screen
/// where the history is empty.
pub fn history_roll_back<H>(actuator: &mut Actuator<H>) -> (r: Option<
    (PromptRefresh, UpdateCharacter),
>)
    requires
        old(actuator).wf(),
    ensures
        final(actuator).wf(),
        final(actuator).past() == old(actuator).past(),
        final(actuator).cursor() == Some(
            back_of(old(actuator).cursor(), old(actuator).past().len()) as usize,
        ),
        final(actuator).log() == old(actuator).log(),
        final(actuator).limit() == old(actuator).limit(),
        final(actuator).same_registry(old(actuator)),
        match r {
            Some((prompt, update)) => prompt.0@ == update.0@ && Some(prompt.0@) == recalled(
                old(actuator).past(),
                back_of(old(actuator).cursor(), old(actuator).past().len()),
            ),
            None => recalled(
                old(actuator).past(),
                back_of(old(actuator).cursor(), old(actuator).past().len()),
            ) is None,
        },
{
    match actuator.roll_back_history() {
        Some(message) => Some((PromptRefresh(message.clone()), UpdateCharacter(message.clone()))),
        None => None,
    }
}

/// Steps the recall forward and returns what the prompt and the edit line
/// are to hold: the line that the recall lands on, or the empty line where
/// the recall ends.
pub fn history_roll_forward<H>(actuator: &mut Actuator<H>) -> (r: (PromptRefresh, UpdateCharacter))
    requires
        old(actuator).wf(),
    ensures
        final(actuator).wf(),
        final(actuator).past() == old(actuator).past(),
        final(actuator).cursor() == if forward_of(
            old(actuator).cursor(),
            old(actuator).past().len(),
        ) >= old(actuator).past().len() {
            None
        } else {
            Some(forward_of(old(actuator).cursor(), old(actuator).past().len()) as usize)
        },
        final(actuator).log() == old(actuator).log(),
        final(actuator).limit() == old(actuator).limit(),
        final(actuator).same_registry(old(actuator)),
        r.0.0@ == r.1.0@,
        r.0.0@ == match recalled(
            old(actuator).past(),
            forward_of(old(actuator).cursor(), old(actuator).past().len()),
        ) {
            Some(line) => line,
            None => Seq::<char>::empty(),
        },
{
    let message = match actuator.roll_forward_history() {
        Some(message) => message.clone(),
        None => String::new(),
    };
    (PromptRefresh(message.clone()), UpdateCharacter(message))
}

} // verus!
