//! What the calculator does with keys, pasted text and its history.

use vstd::prelude::*;
use crate::text::chars::{chars_of, string_of};

verus! {

/// The greatest number of results that the history keeps.
pub const MAX_HISTORY: usize = 1000;

/// What a typed character does to the input line.
#[derive(Clone, Copy, Debug, PartialEq, Eq, Structural)]
pub enum KeyAction {
    /// Append this character.
    Insert(char),
    /// Nothing.
    Ignore,
    /// Work out the result.
    Evaluate,
    /// The character has no meaning here.
    Reject,
}

/// A character that goes into the input line as it is: a digit, the
/// decimal point, an operator, a parenthesis or the thousands separator.
pub open spec fn is_expression_char(c: char) -> bool {
    ('0' <= c && c <= '9') || c == '.' || c == '+' || c == '-' || c == '*' || c == '/' || c
        == '^' || c == '(' || c == ')' || c == '\''
}

/// What a typed character does. A space is taken only after something that
/// is no space; `:` stands for `/` and `x` for `*`; `=` works out the
/// result.
pub open spec fn key_meaning(c: char, input: Seq<char>) -> KeyAction {
    if is_expression_char(c) {
        KeyAction::Insert(c)
    } else if c == ' ' {
        if input.len() > 0 && input.last() != ' ' {
            KeyAction::Insert(' ')
        } else {
            KeyAction::Ignore
        }
    } else if c == ':' {
        KeyAction::Insert('/')
    } else if c == 'x' || c == 'X' {
        KeyAction::Insert('*')
    } else if c == '=' {
        KeyAction::Evaluate
    } else {
        KeyAction::Reject
    }
}

/// Says what a typed character does to the input line `input`.
pub fn handle_char(c: char, input: &str) -> (action: KeyAction)
    ensures
        action == key_meaning(c, input@),
{
    if ('0' <= c && c <= '9') || c == '.' || c == '+' || c == '-' || c == '*' || c == '/' || c
        == '^' || c == '(' || c == ')' || c == '\'' {
        KeyAction::Insert(c)
    } else if c == ' ' {
        let chars = chars_of(input);
        if chars.len() > 0 && chars[chars.len() - 1] != ' ' {
            KeyAction::Insert(' ')
        } else {
            KeyAction::Ignore
        }
    } else if c == ':' {
        KeyAction::Insert('/')
    } else if c == 'x' || c == 'X' {
        KeyAction::Insert('*')
    } else if c == '=' {
        KeyAction::Evaluate
    } else {
        KeyAction::Reject
    }
}

/// What a pasted character becomes: digits, the decimal point, operators,
/// parentheses and spaces stay, `x` becomes `*`, `:` becomes `/`, and all
/// else is dropped.
pub open spec fn pasted_char(c: char) -> Option<char> {
    if c == 'x' || c == 'X' {
        Some('*')
    } else if c == ':' {
        Some('/')
    } else if (is_expression_char(c) && c != '\'') || c == ' ' {
        Some(c)
    } else {
        None
    }
}

/// What a pasted text becomes, character by character.
pub open spec fn pasted_text(text: Seq<char>) -> Seq<char> {
    text.filter_map(|c: char| pasted_char(c))
}

/// Filters a pasted text down to what the calculator takes.
pub fn filter_pasted(text: &str) -> (out: String)
    ensures
        out@ == pasted_text(text@),
{
    let chars = chars_of(text);
    let mut out: Vec<char> = Vec::new();
    let mut i: usize = 0;
    while i < chars.len()
        invariant
            i <= chars@.len(),
            out@ == pasted_text(chars@.take(i as int)),
        decreases chars@.len() - i,
    {
        let c = chars[i];
        proof {
            assert(chars@.take(i + 1).drop_last() == chars@.take(i as int));
            assert(chars@.take(i + 1).last() == c);
        }
        let ghost before = out@;
        if c == 'x' || c == 'X' {
            out.push('*');
            assert(out@ == before + seq!['*']);
        } else if c == ':' {
            out.push('/');
            assert(out@ == before + seq!['/']);
        } else if ('0' <= c && c <= '9') || c == '.' || c == '+' || c == '-' || c == '*' || c
            == '/' || c == '^' || c == '(' || c == ')' || c == ' ' {
            out.push(c);
            assert(out@ == before + seq![c]);
        }
        i += 1;
    }
    assert(chars@.take(chars@.len() as int) == chars@);
    string_of(out.as_slice())
}

/// The history with one more entry at its end, cut at the front to the
/// `limit` newest entries.
pub open spec fn remembered<T>(history: Seq<T>, entry: T, limit: int) -> Seq<T> {
    let all = history.push(entry);
    if all.len() > limit {
        all.skip(all.len() - limit)
    } else {
        all
    }
}

/// Remembers an expression and its result; the history keeps the
/// [`MAX_HISTORY`] newest.
pub fn remember(history: &mut Vec<(String, String)>, expression: String, result: String)
    ensures
        final(history)@ == remembered(old(history)@, (expression, result), MAX_HISTORY as int),
{
    history.push((expression, result));
    let n = history.len();
    if n > MAX_HISTORY {
        let newest = history.split_off(n - MAX_HISTORY);
        *history = newest;
    }
}

/// The entry below the selected one, and the first after the last; with
/// nothing selected, the first. An empty list keeps its selection.
pub open spec fn next_index(selected: Option<usize>, len: int) -> Option<usize> {
    if len == 0 {
        selected
    } else {
        match selected {
            Some(i) => if i >= len - 1 {
                Some(0usize)
            } else {
                Some((i + 1) as usize)
            },
            None => Some(0usize),
        }
    }
}

/// The entry above the selected one, and the last before the first; with
/// nothing selected, the last. An empty list keeps its selection.
pub open spec fn previous_index(selected: Option<usize>, len: int) -> Option<usize> {
    if len == 0 {
        selected
    } else {
        match selected {
            Some(i) => if i == 0 {
                Some((len - 1) as usize)
            } else {
                Some((i - 1) as usize)
            },
            None => Some((len - 1) as usize),
        }
    }
}

/// Moves the selection in a list of `len` entries down by one.
pub fn history_next(selected: Option<usize>, len: usize) -> (next: Option<usize>)
    ensures
        next == next_index(selected, len as int),
        len > 0 ==> next is Some && next->0 < len,
{
    if len == 0 {
        return selected;
    }
    match selected {
        Some(i) => if i >= len - 1 {
            Some(0)
        } else {
            Some(i + 1)
        },
        None => Some(0),
    }
}

/// Moves the selection in a list of `len` entries up by one.
pub fn history_prev(selected: Option<usize>, len: usize) -> (previous: Option<usize>)
    ensures
        previous == previous_index(selected, len as int),
        len > 0 && (selected is None || selected->0 < len) ==> previous is Some && previous->0
            < len,
{
    if len == 0 {
        return selected;
    }
    match selected {
        Some(i) => if i == 0 {
            Some(len - 1)
        } else {
            Some(i - 1)
        },
        None => Some(len - 1),
    }
}

/// The place in the history of the entry shown at row `row`: the list
/// shows the newest entry first.
pub open spec fn shown_at(row: int, len: int) -> Option<int> {
    if 0 <= row < len {
        Some(len - 1 - row)
    } else {
        None
    }
}

/// Finds the place in the history of the entry shown at row `row`.
pub fn history_index(row: usize, len: usize) -> (at: Option<usize>)
    ensures
        at is Some == shown_at(row as int, len as int) is Some,
        at is Some ==> shown_at(row as int, len as int) == Some(at->0 as int),
{
    if row < len {
        Some(len - 1 - row)
    } else {
        None
    }
}

/// What the user asks for with a key.
#[derive(Clone, Copy, Debug, PartialEq, Eq, Structural)]
pub enum Action {
    Quit,
    Help,
    Back,
    Left,
    Right,
    Select,
    Up,
    Down,
    Top,
    Bottom,
    Yank,
    Paste,
    Delete,
    Search,
    VolumeUp,
    VolumeDown,
    Char(char),
    /// Any other key.
    Other,
}

/// What the calculator shows: the tab (0 is the calculator, 1 the
/// history), the field in focus on the calculator tab (0 is the input, 1
/// the result), whether the help is open, how long the history is, and the
/// row selected in it.
#[derive(Clone, Copy, Debug, PartialEq, Eq, Structural)]
pub struct Screen {
    pub tab: usize,
    pub focus: usize,
    pub show_help: bool,
    pub history_len: usize,
    pub selected: Option<usize>,
}

/// What the calculator does about an action.
#[derive(Clone, Copy, Debug, PartialEq, Eq, Structural)]
pub enum Reaction {
    /// Leave the program.
    Quit,
    /// Open the help.
    OpenHelp,
    /// Close the help.
    CloseHelp,
    /// Go to the tab on the left.
    PreviousTab,
    /// Go to the tab on the right.
    NextTab,
    /// Work out the result of the input line.
    Evaluate,
    /// Take the last character off the input line and clear the status.
    DeleteLast,
    /// Put this field in focus.
    Focus(usize),
    /// Select this row of the history.
    SelectRow(Option<usize>),
    /// Append this character to the input line and clear the status.
    Insert(char),
    /// Append a space to the input line.
    InsertSpace,
    /// Say that this character has no meaning.
    Reject(char),
    /// Copy to the clipboard.
    Yank,
    /// Take in what the clipboard holds.
    Paste,
    /// Clear the input line and the result.
    Clear,
    /// Nothing.
    Nothing,
}

/// The input line takes characters: the calculator tab is shown and the
/// input is in focus.
pub open spec fn takes_input(screen: Screen) -> bool {
    screen.tab == 0 && screen.focus == 0
}

/// What a typed character does on the screen.
pub open spec fn char_reaction(c: char, screen: Screen, input: Seq<char>) -> Reaction {
    if !takes_input(screen) {
        Reaction::Nothing
    } else {
        match key_meaning(c, input) {
            KeyAction::Insert(shown) => if c == ' ' {
                Reaction::InsertSpace
            } else {
                Reaction::Insert(shown)
            },
            KeyAction::Ignore => Reaction::Nothing,
            KeyAction::Evaluate => Reaction::Evaluate,
            KeyAction::Reject => Reaction::Reject(c),
        }
    }
}

/// What the calculator does about an action. While the help is open, the
/// keys for help, back and quit close it and all others do nothing.
/// Otherwise: the arrow keys move between the tabs, between the two fields
/// of the calculator tab, and through the history; keys that the key
/// bindings take for other purposes put their character into the input
/// line.
pub open spec fn reaction(action: Action, screen: Screen, input: Seq<char>) -> Reaction {
    if screen.show_help {
        if action == Action::Help || action == Action::Back || action == Action::Quit {
            Reaction::CloseHelp
        } else {
            Reaction::Nothing
        }
    } else {
        match action {
            Action::Quit => Reaction::Quit,
            Action::Help => Reaction::OpenHelp,
            Action::Left => Reaction::PreviousTab,
            Action::Right => Reaction::NextTab,
            Action::Select => if screen.tab == 0 {
                Reaction::Evaluate
            } else {
                Reaction::Nothing
            },
            Action::Back => if screen.tab == 0 && input.len() > 0 {
                Reaction::DeleteLast
            } else {
                Reaction::Nothing
            },
            Action::Up => if screen.tab == 0 {
                if screen.focus > 0 {
                    Reaction::Focus((screen.focus - 1) as usize)
                } else {
                    Reaction::Nothing
                }
            } else if screen.tab == 1 {
                Reaction::SelectRow(previous_index(screen.selected, screen.history_len as int))
            } else {
                Reaction::Nothing
            },
            Action::Down => if screen.tab == 0 {
                if screen.focus < 1 {
                    Reaction::Focus((screen.focus + 1) as usize)
                } else {
                    Reaction::Nothing
                }
            } else if screen.tab == 1 {
                Reaction::SelectRow(next_index(screen.selected, screen.history_len as int))
            } else {
                Reaction::Nothing
            },
            Action::Top => if takes_input(screen) {
                Reaction::Insert('0')
            } else if screen.tab == 1 && screen.history_len > 0 {
                Reaction::SelectRow(Some(0usize))
            } else {
                Reaction::Nothing
            },
            Action::Bottom => if screen.tab == 1 && screen.history_len > 0 {
                Reaction::SelectRow(Some((screen.history_len - 1) as usize))
            } else {
                Reaction::Nothing
            },
            Action::Yank => Reaction::Yank,
            Action::Char(c) => char_reaction(c, screen, input),
            Action::VolumeUp => if takes_input(screen) {
                Reaction::Insert('+')
            } else {
                Reaction::Nothing
            },
            Action::VolumeDown => if takes_input(screen) {
                Reaction::Insert('-')
            } else {
                Reaction::Nothing
            },
            Action::Search => if takes_input(screen) {
                Reaction::Insert('/')
            } else {
                Reaction::Nothing
            },
            Action::Delete => Reaction::Clear,
            Action::Paste => if takes_input(screen) {
                Reaction::Paste
            } else {
                Reaction::Nothing
            },
            Action::Other => Reaction::Nothing,
        }
    }
}

/// Says what the calculator does about an action, given what it shows and
/// what the input line holds.
pub fn handle_action(action: Action, screen: &Screen, input: &str) -> (r: Reaction)
    ensures
        r == reaction(action, *screen, input@),
{
    let typing = screen.tab == 0 && screen.focus == 0;
    if screen.show_help {
        return match action {
            Action::Help | Action::Back | Action::Quit => Reaction::CloseHelp,
            _ => Reaction::Nothing,
        };
    }
    match action {
        Action::Quit => Reaction::Quit,
        Action::Help => Reaction::OpenHelp,
        Action::Left => Reaction::PreviousTab,
        Action::Right => Reaction::NextTab,
        Action::Select => if screen.tab == 0 {
            Reaction::Evaluate
        } else {
            Reaction::Nothing
        },
        Action::Back => if screen.tab == 0 && chars_of(input).len() > 0 {
            Reaction::DeleteLast
        } else {
            Reaction::Nothing
        },
        Action::Up => if screen.tab == 0 {
            if screen.focus > 0 {
                Reaction::Focus(screen.focus - 1)
            } else {
                Reaction::Nothing
            }
        } else if screen.tab == 1 {
            Reaction::SelectRow(history_prev(screen.selected, screen.history_len))
        } else {
            Reaction::Nothing
        },
        Action::Down => if screen.tab == 0 {
            if screen.focus < 1 {
                Reaction::Focus(screen.focus + 1)
            } else {
                Reaction::Nothing
            }
        } else if screen.tab == 1 {
            Reaction::SelectRow(history_next(screen.selected, screen.history_len))
        } else {
            Reaction::Nothing
        },
        Action::Top => if typing {
            Reaction::Insert('0')
        } else if screen.tab == 1 && screen.history_len > 0 {
            Reaction::SelectRow(Some(0))
        } else {
            Reaction::Nothing
        },
        Action::Bottom => if screen.tab == 1 && screen.history_len > 0 {
            Reaction::SelectRow(Some(screen.history_len - 1))
        } else {
            Reaction::Nothing
        },
        Action::Yank => Reaction::Yank,
        Action::Char(c) => if !typing {
            Reaction::Nothing
        } else {
            match handle_char(c, input) {
                KeyAction::Insert(shown) => if c == ' ' {
                    Reaction::InsertSpace
                } else {
                    Reaction::Insert(shown)
                },
                KeyAction::Ignore => Reaction::Nothing,
                KeyAction::Evaluate => Reaction::Evaluate,
                KeyAction::Reject => Reaction::Reject(c),
            }
        },
        Action::VolumeUp => if typing {
            Reaction::Insert('+')
        } else {
            Reaction::Nothing
        },
        Action::VolumeDown => if typing {
            Reaction::Insert('-')
        } else {
            Reaction::Nothing
        },
        Action::Search => if typing {
            Reaction::Insert('/')
        } else {
            Reaction::Nothing
        },
        Action::Delete => Reaction::Clear,
        Action::Paste => if typing {
            Reaction::Paste
        } else {
            Reaction::Nothing
        },
        Action::Other => Reaction::Nothing,
    }
}

/// Where the text to copy comes from.
#[derive(Clone, Copy, Debug, PartialEq, Eq, Structural)]
pub enum YankSource {
    /// The input line.
    Input,
    /// The result.
    Result,
    /// The result of this entry of the history.
    History(usize),
    /// There is nothing to copy.
    Nothing,
}

/// Where the text to copy comes from: on the calculator tab the field in
/// focus, on the history tab the entry shown at the selected row.
pub open spec fn yank_from(screen: Screen) -> YankSource {
    if screen.tab == 0 {
        if screen.focus == 0 {
            YankSource::Input
        } else {
            YankSource::Result
        }
    } else if screen.tab == 1 && screen.selected is Some && shown_at(
        screen.selected->0 as int,
        screen.history_len as int,
    ) is Some {
        YankSource::History(
            shown_at(screen.selected->0 as int, screen.history_len as int)->0 as usize,
        )
    } else {
        YankSource::Nothing
    }
}

/// Says where the text to copy comes from.
pub fn yank_source(screen: &Screen) -> (source: YankSource)
    ensures
        source == yank_from(*screen),
        source is History ==> source->History_0 < screen.history_len,
{
    if screen.tab == 0 {
        if screen.focus == 0 {
            YankSource::Input
        } else {
            YankSource::Result
        }
    } else if screen.tab == 1 {
        match screen.selected {
            Some(row) => match history_index(row, screen.history_len) {
                Some(at) => YankSource::History(at),
                None => YankSource::Nothing,
            },
            None => YankSource::Nothing,
        }
    } else {
        YankSource::Nothing
    }
}

} // verus!
