//! The later desktop front end's side panel and player controls: choosing
//! a mode or an artist, jumping to a letter of the artist list, the
//! play/pause button and the volume.
use vstd::prelude::*;
use crate::mu_gui::sidebar::{ascii_upper, heading, heading_of};
use crate::text::{views, decimal, push_decimal};

verus! {

/// The pages the side panel switches between, with number keys 1 to 4.
#[derive(Debug, Clone, Copy, PartialEq, Eq, Structural)]
pub enum PanelMode {
    Library,
    Queue,
    Playlist,
    Settings,
}

/// The name and the number key shown for a mode.
pub open spec fn mode_label_text(m: PanelMode) -> (Seq<char>, Seq<char>) {
    match m {
        PanelMode::Library => ("Library"@, "1"@),
        PanelMode::Queue => ("Queue"@, "2"@),
        PanelMode::Playlist => ("Playlist"@, "3"@),
        PanelMode::Settings => ("Settings"@, "4"@),
    }
}

pub fn mode_label(m: PanelMode) -> (r: (String, String))
    ensures
        (r.0@, r.1@) == mode_label_text(m),
{
    match m {
        PanelMode::Library => ("Library".to_string(), "1".to_string()),
        PanelMode::Queue => ("Queue".to_string(), "2".to_string()),
        PanelMode::Playlist => ("Playlist".to_string(), "3".to_string()),
        PanelMode::Settings => ("Settings".to_string(), "4".to_string()),
    }
}

/// The side panel's state.
#[derive(Debug)]
pub struct Sidebar {
    /// Whether the panel is shown.
    pub active: bool,
    pub selected_mode: PanelMode,
    pub selected_artist: String,
    /// Set when the library page must show another artist.
    pub update_library: bool,
}

/// What the pointer did on the side panel.
pub enum SidebarEvent {
    /// The button that hides the panel.
    PanelClick,
    ModeClick(PanelMode),
    /// A click on artist row `i` of the list.
    ArtistClick(usize),
    /// A letter picked to jump to.
    LetterJump(char),
}

/// Whether no artist name is empty (each one has a first letter).
pub open spec fn all_named(artists: Seq<Seq<char>>) -> bool {
    forall|i: int| 0 <= i < artists.len() ==> (#[trigger] artists[i]).len() > 0
}

/// Whether a letter heading goes above artist `i`: its first letter, made
/// upper-case, differs from the one before (a space before the first).
pub open spec fn starts_letter(artists: Seq<Seq<char>>, i: int) -> bool {
    heading(artists[i]) != if i == 0 { ' ' } else { heading(artists[i - 1]) }
}

/// The first artist whose letter is `letter` made upper-case.
pub open spec fn letter_row(artists: Seq<Seq<char>>, letter: char) -> Option<int> {
    artists.map_values(|a: Seq<char>| heading(a)).index_of_first(ascii_upper(letter))
}

/// `c` with an ASCII small letter made a capital.
fn upper(c: char) -> (r: char)
    ensures
        r == ascii_upper(c),
{
    if c >= 'a' && c <= 'z' {
        ((c as u8) - 32) as char
    } else {
        c
    }
}

/// Whether a letter heading goes above artist `i`.
pub fn letter_starts(artists: &[String], i: usize) -> (r: bool)
    requires
        i < artists.len(),
    ensures
        r == starts_letter(views(artists@), i as int),
{
    let here = heading_of(&artists[i]);
    let before = if i == 0 {
        ' '
    } else {
        heading_of(&artists[i - 1])
    };
    here != before
}

/// The row a letter jump goes to: the first artist under that letter.
pub fn jump_row(artists: &[String], letter: char) -> (r: Option<usize>)
    ensures
        match r {
            Some(i) => letter_row(views(artists@), letter) == Some(i as int) && i < artists.len(),
            None => letter_row(views(artists@), letter) is None,
        },
{
    let target = upper(letter);
    let ghost hs = views(artists@).map_values(|a: Seq<char>| heading(a));
    proof {
        hs.index_of_first_ensures(target);
    }
    let mut i: usize = 0;
    while i < artists.len()
        invariant
            i <= artists.len(),
            hs == views(artists@).map_values(|a: Seq<char>| heading(a)),
            hs.len() == artists.len(),
            target == ascii_upper(letter),
            forall|j: int| 0 <= j < i ==> hs[j] != target,
            match hs.index_of_first(target) {
                Some(index) => {
                    &&& hs.contains(target)
                    &&& 0 <= index < hs.len()
                    &&& hs[index] == target
                    &&& forall|j: int| 0 <= j < index < hs.len() ==> hs[j] != target
                },
                None => !hs.contains(target),
            },
        decreases artists.len() - i,
    {
        if heading_of(&artists[i]) == target {
            proof {
                assert(hs[i as int] == target);
                assert(hs.contains(target));
            }
            return Some(i);
        }
        i = i + 1;
    }
    proof {
        if hs.contains(target) {
            let k = choose|k: int| 0 <= k < hs.len() && hs[k] == target;
            assert(hs[k] != target);
        }
    }
    None
}

/// One event on the side panel; a letter jump hands back the row to
/// scroll to and changes nothing else. Rows that do not exist change
/// nothing. Every artist has a name: the panel draws each one's first
/// letter.
pub fn sidebar_event(sidebar: &mut Sidebar, artists: &[String], ev: SidebarEvent) -> (r: Option<usize>)
    requires
        all_named(views(artists@)),
    ensures
        match ev {
            SidebarEvent::PanelClick => r is None && *final(sidebar) == (Sidebar { active: false, ..*old(sidebar) }),
            SidebarEvent::ModeClick(m) => r is None && *final(sidebar) == (Sidebar { selected_mode: m, ..*old(sidebar) }),
            SidebarEvent::ArtistClick(i) => r is None && if i < artists.len() {
                &&& final(sidebar).selected_artist@ == artists@[i as int]@
                &&& final(sidebar).update_library
                &&& final(sidebar).active == old(sidebar).active
                &&& final(sidebar).selected_mode == old(sidebar).selected_mode
            } else {
                *final(sidebar) == *old(sidebar)
            },
            SidebarEvent::LetterJump(c) => *final(sidebar) == *old(sidebar) && match r {
                Some(i) => letter_row(views(artists@), c) == Some(i as int),
                None => letter_row(views(artists@), c) is None,
            },
        },
{
    match ev {
        SidebarEvent::PanelClick => {
            sidebar.active = false;
            None
        },
        SidebarEvent::ModeClick(m) => {
            sidebar.selected_mode = m;
            None
        },
        SidebarEvent::ArtistClick(i) => {
            if i < artists.len() {
                sidebar.selected_artist = artists[i].clone();
                sidebar.update_library = true;
            }
            None
        },
        SidebarEvent::LetterJump(c) => jump_row(artists, c),
    }
}

/// The player controls' state: whether a song plays, and the volume in
/// percent.
#[derive(Debug)]
pub struct PlayControls {
    pub playing: bool,
    pub volume: u8,
}

/// What the player is told to do.
#[derive(Debug, Clone, Copy, PartialEq, Eq, Structural)]
pub enum PlayerCommand {
    Play,
    Pause,
}

/// The controls after the play/pause button: playing flipped.
pub open spec fn toggled(c: PlayControls) -> PlayControls {
    PlayControls { playing: !c.playing, ..c }
}

/// The play/pause button: a playing song pauses, a paused one plays, and
/// the button flips.
pub fn toggle_play(controls: &mut PlayControls) -> (r: PlayerCommand)
    ensures
        r == if old(controls).playing { PlayerCommand::Pause } else { PlayerCommand::Play },
        *final(controls) == toggled(*old(controls)),
{
    let r = if controls.playing {
        PlayerCommand::Pause
    } else {
        PlayerCommand::Play
    };
    controls.playing = !controls.playing;
    r
}

/// Pressing play/pause twice leaves the controls as they were, and the two
/// presses tell the player opposite things.
pub proof fn lemma_toggle_twice(c: PlayControls)
    ensures
        toggled(toggled(c)) == c,
        toggled(c).playing != c.playing,
{
}

/// The label of the play/pause button.
pub open spec fn play_label_text(playing: bool) -> Seq<char> {
    if playing {
        "Pause"@
    } else {
        "Play"@
    }
}

pub fn play_label(playing: bool) -> (r: String)
    ensures
        r@ == play_label_text(playing),
{
    if playing {
        "Pause".to_string()
    } else {
        "Play".to_string()
    }
}

/// Set the volume from the slider, at most 100 percent; the volume the
/// player is given is returned.
pub fn set_volume(controls: &mut PlayControls, percent: u8) -> (r: u8)
    ensures
        r == if percent > 100 { 100 } else { percent },
        final(controls).volume == r,
        final(controls).playing == old(controls).playing,
{
    let v = if percent > 100 {
        100
    } else {
        percent
    };
    controls.volume = v;
    v
}

/// The volume shown beside the slider.
pub fn volume_text(volume: u8) -> (r: String)
    ensures
        r@ == decimal(volume as nat),
{
    let mut s = String::new();
    push_decimal(&mut s, volume as u64);
    proof {
        assert(s@ =~= decimal(volume as nat));
    }
    s
}

} // verus!
