//! The artist page of the later desktop front end: the artist's songs in
//! album blocks, with the labels, sizes and row clicks the page works with.
use vstd::prelude::*;
use crate::mu_core::db::Song;
use crate::text::{decimal, push_char, push_decimal};

verus! {

/// The height of an album block: its title, a gap, the rows with gaps
/// between them, but never less than the cover.
pub open spec fn album_height(title_height: int, rows: int) -> int {
    let h = title_height + 12 + rows * 36 + (rows - 1) * 2;
    if h > 148 { h } else { 148 }
}

/// The height of the block of an album with `rows` songs under a title
/// `title_height` high.
pub fn album_block_height(title_height: i32, rows: i32) -> (r: i32)
    requires
        0 <= rows,
        0 <= title_height,
        title_height + 10 + 38 * rows <= i32::MAX,
    ensures
        r == album_height(title_height as int, rows as int),
{
    let h = title_height + 10 + rows * 38;
    if h > 148 { h } else { 148 }
}

/// `n` in decimal with at least two digits.
pub open spec fn two_digits(n: nat) -> Seq<char> {
    if n < 10 { seq!['0'] + decimal(n) } else { decimal(n) }
}

/// Append `n` in decimal with at least two digits.
pub fn push_two_digits(s: &mut String, n: u64)
    ensures
        final(s)@ == old(s)@ + two_digits(n as nat),
{
    if n < 10 {
        push_char(s, '0');
        proof {
            assert(old(s)@.push('0') =~= old(s)@ + seq!['0']);
        }
    }
    let ghost before = s@;
    push_decimal(s, n);
    proof {
        if n < 10 {
            assert(s@ =~= old(s)@ + (seq!['0'] + decimal(n as nat)));
        }
    }
}

/// A track number as the page shows it: two digits at least.
pub fn track_number_text(n: u8) -> (r: String)
    ensures
        r@ == two_digits(n as nat),
{
    let mut s = String::new();
    push_two_digits(&mut s, n as u64);
    proof {
        assert(s@ =~= two_digits(n as nat));
    }
    s
}

/// A length of `t` seconds as hours, minutes and seconds, each of at least
/// two digits, the hours left out when there are none.
pub open spec fn duration_label(t: nat) -> Seq<char> {
    let hours = t / 3600;
    let minutes = (t % 3600) / 60;
    let seconds = t % 60;
    if hours > 0 {
        two_digits(hours) + seq![':'] + two_digits(minutes as nat) + seq![':'] + two_digits(seconds)
    } else {
        two_digits(minutes as nat) + seq![':'] + two_digits(seconds)
    }
}

/// The text for a song's length of `total_secs` seconds.
pub fn duration_text(total_secs: u64) -> (r: String)
    ensures
        r@ == duration_label(total_secs as nat),
{
    let hours = total_secs / 3600;
    let minutes = (total_secs % 3600) / 60;
    let seconds = total_secs % 60;
    let mut s = String::new();
    if hours > 0 {
        push_two_digits(&mut s, hours);
        push_char(&mut s, ':');
    }
    push_two_digits(&mut s, minutes);
    push_char(&mut s, ':');
    push_two_digits(&mut s, seconds);
    proof {
        assert(s@ =~= duration_label(total_secs as nat));
    }
    s
}

/// A playing position of `t` seconds as minutes and seconds, each of at
/// least two digits.
pub open spec fn clock_label(t: nat) -> Seq<char> {
    two_digits(t / 60) + seq![':'] + two_digits(t % 60)
}

/// The text for a playing position of `total_seconds` seconds.
pub fn clock_text(total_seconds: u32) -> (r: String)
    ensures
        r@ == clock_label(total_seconds as nat),
{
    let mut s = String::new();
    push_two_digits(&mut s, (total_seconds / 60) as u64);
    push_char(&mut s, ':');
    push_two_digits(&mut s, (total_seconds % 60) as u64);
    proof {
        assert(s@ =~= clock_label(total_seconds as nat));
    }
    s
}

/// The page's header line for `albums` albums and `tracks` tracks.
pub open spec fn header_label(albums: nat, tracks: nat) -> Seq<char> {
    decimal(albums) + " ALBUMS · "@ + decimal(tracks) + " TRACKS"@
}

pub fn header_text(albums: usize, tracks: usize) -> (r: String)
    ensures
        r@ == header_label(albums as nat, tracks as nat),
{
    let mut s = String::new();
    push_decimal(&mut s, albums as u64);
    s.append(" ALBUMS · ");
    push_decimal(&mut s, tracks as u64);
    s.append(" TRACKS");
    proof {
        assert(s@ =~= header_label(albums as nat, tracks as nat));
    }
    s
}

/// An album's second line: its year, and how many tracks it has.
pub open spec fn year_label(year: nat, tracks: nat) -> Seq<char> {
    decimal(year) + " · "@ + decimal(tracks) + if tracks > 1 { " tracks"@ } else { " track"@ }
}

pub fn year_text(year: u16, tracks: usize) -> (r: String)
    ensures
        r@ == year_label(year as nat, tracks as nat),
{
    let mut s = String::new();
    push_decimal(&mut s, year as u64);
    s.append(" · ");
    push_decimal(&mut s, tracks as u64);
    if tracks > 1 {
        s.append(" tracks");
    } else {
        s.append(" track");
    }
    proof {
        assert(s@ =~= year_label(year as nat, tracks as nat));
    }
    s
}

/// Whether `runs` cuts `songs` into its blocks of consecutive songs of one
/// album: the runs follow one another from the first song to the last,
/// none is empty, the songs of a run share its first song's album, and a
/// run's first song is on another album than the song before it.
pub open spec fn album_blocks(songs: Seq<Song>, runs: Seq<(usize, usize)>) -> bool {
    &&& (runs.len() == 0) == (songs.len() == 0)
    &&& runs.len() > 0 ==> runs[0].0 == 0 && runs.last().1 == songs.len()
    &&& forall|i: int| 0 <= i < runs.len() ==> (#[trigger] runs[i]).0 < runs[i].1
    &&& forall|i: int| 0 <= i < runs.len() - 1 ==> (#[trigger] runs[i]).1 == runs[i + 1].0
    &&& forall|i: int, j: int|
        0 <= i < runs.len() && runs[i].0 <= j < runs[i].1 ==> (#[trigger] songs[j]).album@ == songs[(
        #[trigger] runs[i]).0 as int].album@
    &&& forall|i: int|
        0 < i < runs.len() ==> songs[(#[trigger] runs[i]).0 - 1].album@ != songs[runs[i].0 as int].album@
}

/// Cut a page's songs into album blocks: runs of consecutive songs of one
/// album, as start and end positions.
pub fn album_runs(songs: &[Song]) -> (r: Vec<(usize, usize)>)
    ensures
        album_blocks(songs@, r@),
{
    let n = songs.len();
    let mut runs: Vec<(usize, usize)> = Vec::new();
    if n == 0 {
        return runs;
    }
    let mut start: usize = 0;
    let mut i: usize = 1;
    while i < n
        invariant
            n == songs@.len(),
            0 <= start < i <= n,
            forall|j: int| start <= j < i ==> (#[trigger] songs@[j]).album@ == songs@[start as int].album@,
            start > 0 ==> songs@[start - 1].album@ != songs@[start as int].album@,
            (runs@.len() == 0) == (start == 0),
            runs@.len() > 0 ==> runs@[0].0 == 0 && runs@.last().1 == start,
            forall|k: int| 0 <= k < runs@.len() ==> (#[trigger] runs@[k]).0 < runs@[k].1,
            forall|k: int| 0 <= k < runs@.len() - 1 ==> (#[trigger] runs@[k]).1 == runs@[k + 1].0,
            forall|k: int, j: int|
                0 <= k < runs@.len() && runs@[k].0 <= j < runs@[k].1 ==> (#[trigger] songs@[j]).album@ == songs@[(
                #[trigger] runs@[k]).0 as int].album@,
            forall|k: int|
                0 < k < runs@.len() ==> songs@[(#[trigger] runs@[k]).0 - 1].album@ != songs@[runs@[k].0 as int].album@,
        decreases n - i,
    {
        if songs[i].album != songs[i - 1].album {
            runs.push((start, i));
            start = i;
        }
        i = i + 1;
    }
    runs.push((start, n));
    runs
}

/// The page's state that the album blocks change: which song plays, which
/// is selected, and whether playback must follow a new choice.
#[derive(Debug)]
pub struct Library {
    pub artist: String,
    pub total_tracks: usize,
    /// (album, song)
    pub playing_song: Option<(usize, usize)>,
    /// (album, song)
    pub selected_song: Option<(usize, usize)>,
    pub update_playing: bool,
}

/// A click on the row of song `si` of album `ai`: a click selects it, a
/// double click also makes it the playing song, to be played.
pub fn on_song_row(library: &mut Library, ai: usize, si: usize, clicked: bool, double_clicked: bool)
    ensures
        final(library).artist == old(library).artist,
        final(library).total_tracks == old(library).total_tracks,
        final(library).selected_song == if clicked { Some((ai, si)) } else { old(library).selected_song },
        final(library).playing_song == if double_clicked { Some((ai, si)) } else { old(library).playing_song },
        final(library).update_playing == (double_clicked || old(library).update_playing),
{
    if clicked {
        library.selected_song = Some((ai, si));
    }
    if double_clicked {
        library.playing_song = Some((ai, si));
        library.update_playing = true;
    }
}

} // verus!
