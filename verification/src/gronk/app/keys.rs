//! The terminal player's key bindings: which action a key press asks for,
//! given the screen that has the keyboard.
use vstd::prelude::*;
use crate::gronk::modes::UiMode;
use crate::gronk::app::search::SearchMode;

verus! {

/// A key as the terminal reports it.
#[derive(Debug, Clone, Copy, PartialEq, Eq, Structural)]
pub enum Key {
    Char(char),
    Down,
    Up,
    Left,
    Right,
    Enter,
    Tab,
    Backspace,
    Esc,
    Other,
}

/// What a key press asks the player to do.
#[derive(Debug, Clone, Copy, PartialEq, Eq, Structural)]
pub enum KeyAction {
    Nothing,
    Up,
    Down,
    BrowserPrev,
    BrowserNext,
    Enter,
    /// Show this screen; leaving the search screen resets the search.
    SwitchTo(UiMode),
    /// The key typed into the search.
    SearchKey(char),
    /// Backspace in the search query; with Ctrl alone the query is cleared.
    SearchBackspace(bool),
    SearchExit,
    ResetDatabase,
    ClearQueue,
    PlayPause,
    SeekBackward,
    SeekForward,
    PrevSong,
    NextSong,
    VolumeUp,
    VolumeDown,
    DeleteFromQueue,
    /// Move a column border of the queue table; Shift moves it right.
    MoveConstraint(char, bool),
}

/// The action of a typed character outside the search screen.
pub open spec fn char_action(c: char, shift: bool) -> KeyAction {
    if c == 'u' {
        KeyAction::ResetDatabase
    } else if c == 'c' {
        KeyAction::ClearQueue
    } else if c == 'j' {
        KeyAction::Down
    } else if c == 'k' {
        KeyAction::Up
    } else if c == 'h' {
        KeyAction::BrowserPrev
    } else if c == 'l' {
        KeyAction::BrowserNext
    } else if c == ' ' {
        KeyAction::PlayPause
    } else if c == 'q' {
        KeyAction::SeekBackward
    } else if c == 'e' {
        KeyAction::SeekForward
    } else if c == 'a' {
        KeyAction::PrevSong
    } else if c == 'd' {
        KeyAction::NextSong
    } else if c == 'w' {
        KeyAction::VolumeUp
    } else if c == 's' {
        KeyAction::VolumeDown
    } else if c == '/' {
        KeyAction::SwitchTo(UiMode::Search)
    } else if c == 'x' {
        KeyAction::DeleteFromQueue
    } else if c == '1' || c == '!' {
        KeyAction::MoveConstraint('1', shift)
    } else if c == '2' || c == '@' {
        KeyAction::MoveConstraint('2', shift)
    } else if c == '3' || c == '#' {
        KeyAction::MoveConstraint('3', shift)
    } else {
        KeyAction::Nothing
    }
}

/// The action of a key press: on the search screen characters are typed;
/// elsewhere they are the single-key commands of `char_action`. Tab
/// switches between browser and queue (the search screen goes to the
/// queue); Backspace edits the query while typing and leaves picking; Esc
/// leaves the search.
pub open spec fn key_action_of(key: Key, shift: bool, control: bool, ui: UiMode, search: SearchMode) -> KeyAction {
    match key {
        Key::Char(c) => if ui == UiMode::Search {
            KeyAction::SearchKey(c)
        } else {
            char_action(c, shift)
        },
        Key::Down => KeyAction::Down,
        Key::Up => KeyAction::Up,
        Key::Left => KeyAction::BrowserPrev,
        Key::Right => KeyAction::BrowserNext,
        Key::Enter => KeyAction::Enter,
        Key::Tab => match ui {
            UiMode::Browser => KeyAction::SwitchTo(UiMode::Queue),
            UiMode::Queue => KeyAction::SwitchTo(UiMode::Browser),
            UiMode::Search => KeyAction::SwitchTo(UiMode::Queue),
        },
        Key::Backspace => match search {
            SearchMode::Search => KeyAction::SearchBackspace(control),
            SearchMode::Select => KeyAction::SearchExit,
        },
        Key::Esc => if ui == UiMode::Search {
            KeyAction::SearchExit
        } else {
            KeyAction::Nothing
        },
        Key::Other => KeyAction::Nothing,
    }
}

/// The action of a typed character outside the search screen.
pub fn handle_char(c: char, shift: bool) -> (r: KeyAction)
    ensures
        r == char_action(c, shift),
{
    if c == 'u' {
        KeyAction::ResetDatabase
    } else if c == 'c' {
        KeyAction::ClearQueue
    } else if c == 'j' {
        KeyAction::Down
    } else if c == 'k' {
        KeyAction::Up
    } else if c == 'h' {
        KeyAction::BrowserPrev
    } else if c == 'l' {
        KeyAction::BrowserNext
    } else if c == ' ' {
        KeyAction::PlayPause
    } else if c == 'q' {
        KeyAction::SeekBackward
    } else if c == 'e' {
        KeyAction::SeekForward
    } else if c == 'a' {
        KeyAction::PrevSong
    } else if c == 'd' {
        KeyAction::NextSong
    } else if c == 'w' {
        KeyAction::VolumeUp
    } else if c == 's' {
        KeyAction::VolumeDown
    } else if c == '/' {
        KeyAction::SwitchTo(UiMode::Search)
    } else if c == 'x' {
        KeyAction::DeleteFromQueue
    } else if c == '1' || c == '!' {
        KeyAction::MoveConstraint('1', shift)
    } else if c == '2' || c == '@' {
        KeyAction::MoveConstraint('2', shift)
    } else if c == '3' || c == '#' {
        KeyAction::MoveConstraint('3', shift)
    } else {
        KeyAction::Nothing
    }
}

/// The action of a key press on the screen `ui`, the search being in mode
/// `search`; `shift` and `control` tell which modifiers are held.
pub fn input(key: Key, shift: bool, control: bool, ui: UiMode, search: SearchMode) -> (r: KeyAction)
    ensures
        r == key_action_of(key, shift, control, ui, search),
{
    match key {
        Key::Char(c) => if ui == UiMode::Search {
            KeyAction::SearchKey(c)
        } else {
            handle_char(c, shift)
        },
        Key::Down => KeyAction::Down,
        Key::Up => KeyAction::Up,
        Key::Left => KeyAction::BrowserPrev,
        Key::Right => KeyAction::BrowserNext,
        Key::Enter => KeyAction::Enter,
        Key::Tab => match ui {
            UiMode::Browser => KeyAction::SwitchTo(UiMode::Queue),
            UiMode::Queue => KeyAction::SwitchTo(UiMode::Browser),
            UiMode::Search => KeyAction::SwitchTo(UiMode::Queue),
        },
        Key::Backspace => match search {
            SearchMode::Search => KeyAction::SearchBackspace(control),
            SearchMode::Select => KeyAction::SearchExit,
        },
        Key::Esc => if ui == UiMode::Search {
            KeyAction::SearchExit
        } else {
            KeyAction::Nothing
        },
        Key::Other => KeyAction::Nothing,
    }
}

/// Tab twice on the browser or the queue comes back to the same screen.
pub proof fn lemma_tab_twice(ui: UiMode, search: SearchMode)
    requires
        ui != UiMode::Search,
    ensures
        ({
            let first = key_action_of(Key::Tab, false, false, ui, search);
            first matches KeyAction::SwitchTo(m) && key_action_of(Key::Tab, false, false, m, search)
                == KeyAction::SwitchTo(ui)
        }),
{
}


/// The documented key bindings, on the browser and the queue: `w` and `s`
/// turn the volume up and down, `a` and `d` go to the previous and next
/// song, `q` and `e` seek back and forward, space plays or pauses, `j`/`k`
/// and the arrows move, `h`/`l` and left/right change browser column, `c`
/// clears the queue, `x` deletes from it, `u` rebuilds the database, `/`
/// opens the search, `1`-`3` (with or without Shift) move the queue's
/// column borders, Enter plays, and Tab switches between the two screens.
pub proof fn lemma_documented_bindings(shift: bool, control: bool, ui: UiMode, search: SearchMode)
    requires
        ui != UiMode::Search,
    ensures
        key_action_of(Key::Char('w'), shift, control, ui, search) == KeyAction::VolumeUp,
        key_action_of(Key::Char('s'), shift, control, ui, search) == KeyAction::VolumeDown,
        key_action_of(Key::Char('a'), shift, control, ui, search) == KeyAction::PrevSong,
        key_action_of(Key::Char('d'), shift, control, ui, search) == KeyAction::NextSong,
        key_action_of(Key::Char('q'), shift, control, ui, search) == KeyAction::SeekBackward,
        key_action_of(Key::Char('e'), shift, control, ui, search) == KeyAction::SeekForward,
        key_action_of(Key::Char(' '), shift, control, ui, search) == KeyAction::PlayPause,
        key_action_of(Key::Char('j'), shift, control, ui, search) == KeyAction::Down,
        key_action_of(Key::Char('k'), shift, control, ui, search) == KeyAction::Up,
        key_action_of(Key::Char('h'), shift, control, ui, search) == KeyAction::BrowserPrev,
        key_action_of(Key::Char('l'), shift, control, ui, search) == KeyAction::BrowserNext,
        key_action_of(Key::Char('c'), shift, control, ui, search) == KeyAction::ClearQueue,
        key_action_of(Key::Char('x'), shift, control, ui, search) == KeyAction::DeleteFromQueue,
        key_action_of(Key::Char('u'), shift, control, ui, search) == KeyAction::ResetDatabase,
        key_action_of(Key::Char('/'), shift, control, ui, search) == KeyAction::SwitchTo(UiMode::Search),
        key_action_of(Key::Char('1'), shift, control, ui, search) == KeyAction::MoveConstraint('1', shift),
        key_action_of(Key::Char('!'), shift, control, ui, search) == KeyAction::MoveConstraint('1', shift),
        key_action_of(Key::Char('2'), shift, control, ui, search) == KeyAction::MoveConstraint('2', shift),
        key_action_of(Key::Char('@'), shift, control, ui, search) == KeyAction::MoveConstraint('2', shift),
        key_action_of(Key::Char('3'), shift, control, ui, search) == KeyAction::MoveConstraint('3', shift),
        key_action_of(Key::Char('#'), shift, control, ui, search) == KeyAction::MoveConstraint('3', shift),
        key_action_of(Key::Down, shift, control, ui, search) == KeyAction::Down,
        key_action_of(Key::Up, shift, control, ui, search) == KeyAction::Up,
        key_action_of(Key::Left, shift, control, ui, search) == KeyAction::BrowserPrev,
        key_action_of(Key::Right, shift, control, ui, search) == KeyAction::BrowserNext,
        key_action_of(Key::Enter, shift, control, ui, search) == KeyAction::Enter,
        key_action_of(Key::Tab, shift, control, UiMode::Browser, search) == KeyAction::SwitchTo(UiMode::Queue),
        key_action_of(Key::Tab, shift, control, UiMode::Queue, search) == KeyAction::SwitchTo(UiMode::Browser),
        key_action_of(Key::Esc, shift, control, ui, search) == KeyAction::Nothing,
{
}

/// On the search screen every character is typed into the query, Esc and
/// Tab leave it, and Backspace edits the query while typing.
pub proof fn lemma_search_screen_keys(c: char, shift: bool, control: bool)
    ensures
        key_action_of(Key::Char(c), shift, control, UiMode::Search, SearchMode::Search) == KeyAction::SearchKey(c),
        key_action_of(Key::Char(c), shift, control, UiMode::Search, SearchMode::Select) == KeyAction::SearchKey(c),
        key_action_of(Key::Esc, shift, control, UiMode::Search, SearchMode::Search) == KeyAction::SearchExit,
        key_action_of(Key::Tab, shift, control, UiMode::Search, SearchMode::Search) == KeyAction::SwitchTo(UiMode::Queue),
        key_action_of(Key::Backspace, shift, control, UiMode::Search, SearchMode::Search) == KeyAction::SearchBackspace(
            control,
        ),
        key_action_of(Key::Backspace, shift, control, UiMode::Search, SearchMode::Select) == KeyAction::SearchExit,
{
}

} // verus!
