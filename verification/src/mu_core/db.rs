use vstd::prelude::*;
use crate::text::{views, split_on, split_str, lemma_split_on_nonempty, push_char, push_decimal, decimal, parse_unsigned, parse_number, lemma_parse_decimal, lemma_decimal_digits, all_digits, lemma_split_without_sep, lemma_split_concat, lemma_decimal_has_no_tab, trim, trimmed, is_space, lemma_trim_start_skip, lemma_trim_end_take, float_text, is_float_text, lemma_float_text_tab_free, chars_of};

verus! {

/// One track of the library. `gain` is the replay gain exactly as it is
/// written in the database file (decimal text); the front ends turn it into
/// a number.
#[derive(Debug, Clone)]
pub struct Song {
    pub title: String,
    pub album: String,
    pub artist: String,
    pub disc_number: u8,
    pub track_number: u8,
    pub path: String,
    pub gain: String,
    pub year: u16,
}

/// The contents of a song, with its text fields as character sequences.
pub struct SongView {
    pub title: Seq<char>,
    pub album: Seq<char>,
    pub artist: Seq<char>,
    pub disc_number: u8,
    pub track_number: u8,
    pub path: Seq<char>,
    pub gain: Seq<char>,
    pub year: u16,
}

impl View for Song {
    type V = SongView;

    open spec fn view(&self) -> SongView {
        SongView {
            title: self.title@,
            album: self.album@,
            artist: self.artist@,
            disc_number: self.disc_number,
            track_number: self.track_number,
            path: self.path@,
            gain: self.gain@,
            year: self.year,
        }
    }
}

impl Song {
    /// Whether two songs have the same contents.
    pub fn same_as(&self, other: &Song) -> (r: bool)
        ensures
            r == (self@ == other@),
    {
        self.title == other.title && self.album == other.album && self.artist == other.artist
            && self.disc_number == other.disc_number && self.track_number == other.track_number
            && self.path == other.path && self.gain == other.gain && self.year == other.year
    }

    /// A field-by-field copy.
    pub fn duplicate(&self) -> (r: Song)
        ensures
            r == *self,
    {
        Song {
            title: self.title.clone(),
            album: self.album.clone(),
            artist: self.artist.clone(),
            disc_number: self.disc_number,
            track_number: self.track_number,
            path: self.path.clone(),
            gain: self.gain.clone(),
            year: self.year,
        }
    }
}

} // verus!

verus! {

/// The paths of a list of songs.
pub open spec fn song_paths(s: Seq<Song>) -> Seq<Seq<char>> {
    s.map_values(|x: Song| x.path@)
}

/// The first song in `all` whose path is `p`.
pub open spec fn first_song_with_path(all: Seq<Song>, p: Seq<char>) -> Option<Song> {
    match song_paths(all).index_of_first(p) {
        Some(i) => Some(all[i]),
        None => None,
    }
}

/// The position of the first song in `all` whose path is `path`.
pub fn find_song_by_path(all: &[Song], path: &String) -> (r: Option<usize>)
    ensures
        match r {
            Some(i) => {
                &&& song_paths(all@).index_of_first(path@) == Some(i as int)
                &&& i < all.len()
                &&& all@[i as int].path@ == path@
            },
            None => song_paths(all@).index_of_first(path@) is None,
        },
{
    let ghost ps = song_paths(all@);
    proof {
        ps.index_of_first_ensures(path@);
    }
    let mut i: usize = 0;
    while i < all.len()
        invariant
            i <= all.len(),
            ps == song_paths(all@),
            ps.len() == all.len(),
            forall|j: int| 0 <= j < i ==> ps[j] != path@,
            match ps.index_of_first(path@) {
                Some(index) => {
                    &&& ps.contains(path@)
                    &&& 0 <= index < ps.len()
                    &&& ps[index] == path@
                    &&& forall|j: int| 0 <= j < index < ps.len() ==> ps[j] != path@
                },
                None => !ps.contains(path@),
            },
        decreases all.len() - i,
    {
        if all[i].path == *path {
            proof {
                assert(ps[i as int] == path@);
                assert(ps.contains(path@));
            }
            return Some(i);
        }
        i = i + 1;
    }
    proof {
        if ps.contains(path@) {
            let k = choose|k: int| 0 <= k < ps.len() && ps[k] == path@;
            assert(ps[k] != path@);
        }
    }
    None
}


/// `s` with every tab and line break removed: what the database writes for
/// a text field, so that fields and lines stay apart.
pub open spec fn without_breaks(s: Seq<char>) -> Seq<char>
    decreases s.len(),
{
    if s.len() == 0 {
        s
    } else if s.last() == '\t' || s.last() == '\n' {
        without_breaks(s.drop_last())
    } else {
        without_breaks(s.drop_last()).push(s.last())
    }
}

/// Whether a text has no tab and no line break.
pub open spec fn no_breaks(s: Seq<char>) -> bool {
    forall|i: int| 0 <= i < s.len() ==> #[trigger] s[i] != '\t' && s[i] != '\n'
}

pub proof fn lemma_without_breaks_has_none(s: Seq<char>)
    ensures
        no_breaks(without_breaks(s)),
    decreases s.len(),
{
    if s.len() > 0 {
        lemma_without_breaks_has_none(s.drop_last());
    }
}

pub proof fn lemma_without_breaks_keeps_clean(s: Seq<char>)
    requires
        no_breaks(s),
    ensures
        without_breaks(s) == s,
    decreases s.len(),
{
    if s.len() > 0 {
        assert(no_breaks(s.drop_last()));
        lemma_without_breaks_keeps_clean(s.drop_last());
        assert(s.drop_last().push(s.last()) =~= s);
    }
}

/// Remove tabs and line breaks from a field before it is written.
pub fn escape(s: &str) -> (r: String)
    ensures
        r@ == without_breaks(s@),
{
    let n = s.unicode_len();
    let mut out = String::new();
    let mut i: usize = 0;
    while i < n
        invariant
            n == s@.len(),
            i <= n,
            out@ == without_breaks(s@.take(i as int)),
        decreases n - i,
    {
        let c = s.get_char(i);
        proof {
            assert(s@.take(i + 1).drop_last() =~= s@.take(i as int));
            assert(s@.take(i + 1).last() == c);
        }
        if c != '\t' && c != '\n' {
            push_char(&mut out, c);
        }
        i = i + 1;
    }
    proof {
        assert(s@.take(n as int) =~= s@);
    }
    out
}

/// The line that stores a song in the database file: its fields separated
/// by tabs (text fields without tabs and line breaks, numbers in decimal),
/// ended by a line break.
pub open spec fn song_line(s: SongView) -> Seq<char> {
    song_body(s) + seq!['\n']
}

/// A song's database line without its line break.
pub open spec fn song_body(s: SongView) -> Seq<char> {
    without_breaks(s.title) + seq!['\t'] + without_breaks(s.album) + seq!['\t'] + without_breaks(
        s.artist,
    ) + seq!['\t'] + decimal(s.disc_number as nat) + seq!['\t'] + decimal(s.track_number as nat)
        + seq!['\t'] + without_breaks(s.path) + seq!['\t'] + s.gain + seq!['\t'] + decimal(
        s.year as nat,
    )
}

/// Why a database line is not a song.
#[derive(Debug, Clone, Copy, PartialEq, Eq, Structural)]
pub enum SongError {
    EmptySong,
    MissingAlbum,
    MissingArtist,
    MissingDiscNumber,
    InvalidDiscNumber,
    MissingTrackNumber,
    InvalidTrackNumber,
    MissingPath,
    MissingGain,
    InvalidGain,
}

/// The song a database line stores: one trailing line break dropped, the
/// rest split at tabs into title, album, artist, disc number, track number,
/// path, gain and year. A missing or unreadable year reads as 0; further
/// fields are ignored.
pub open spec fn song_from_line(line: Seq<char>) -> Result<SongView, SongError> {
    if line.len() == 0 {
        Err(SongError::EmptySong)
    } else {
        let t = if line.last() == '\n' { line.drop_last() } else { line };
        let f = split_on(t, '\t');
        if f.len() < 2 {
            Err(SongError::MissingAlbum)
        } else if f.len() < 3 {
            Err(SongError::MissingArtist)
        } else if f.len() < 4 {
            Err(SongError::MissingDiscNumber)
        } else if parse_unsigned(f[3], 255) is None {
            Err(SongError::InvalidDiscNumber)
        } else if f.len() < 5 {
            Err(SongError::MissingTrackNumber)
        } else if parse_unsigned(f[4], 255) is None {
            Err(SongError::InvalidTrackNumber)
        } else if f.len() < 6 {
            Err(SongError::MissingPath)
        } else if f.len() < 7 {
            Err(SongError::MissingGain)
        } else if !float_text(f[6]) {
            Err(SongError::InvalidGain)
        } else {
            Ok(
                SongView {
                    title: f[0],
                    album: f[1],
                    artist: f[2],
                    disc_number: parse_unsigned(f[3], 255).unwrap() as u8,
                    track_number: parse_unsigned(f[4], 255).unwrap() as u8,
                    path: f[5],
                    gain: f[6],
                    year: if f.len() >= 8 && parse_unsigned(f[7], 65535) is Some {
                        parse_unsigned(f[7], 65535).unwrap() as u16
                    } else {
                        0
                    },
                },
            )
        }
    }
}

impl Song {
    /// A song with the placeholder tags the scanner uses for missing ones.
    pub fn new() -> (r: Self)
        ensures
            r.title@ == "Unknown Title"@,
            r.album@ == "Unknown Album"@,
            r.artist@ == "Unknown Artist"@,
            r.disc_number == 1,
            r.track_number == 1,
            r.path@ == Seq::<char>::empty(),
            r.gain@ == "0.0"@,
            r.year == 0,
    {
        Song {
            title: "Unknown Title".to_owned(),
            album: "Unknown Album".to_owned(),
            artist: "Unknown Artist".to_owned(),
            disc_number: 1,
            track_number: 1,
            path: String::new(),
            gain: "0.0".to_owned(),
            year: 0,
        }
    }

    /// The song used by tests and examples.
    pub fn example() -> (r: Self)
        ensures
            r.title@ == "title"@,
            r.album@ == "album"@,
            r.artist@ == "artist"@,
            r.disc_number == 1,
            r.track_number == 1,
            r.path@ == "path"@,
            r.gain@ == "1"@,
            r.year == 0,
    {
        Song {
            title: "title".to_owned(),
            album: "album".to_owned(),
            artist: "artist".to_owned(),
            disc_number: 1,
            track_number: 1,
            path: "path".to_owned(),
            gain: "1".to_owned(),
            year: 0,
        }
    }

    /// The database line for this song.
    pub fn serialize(&self) -> (r: String)
        ensures
            r@ == song_line(self@),
    {
        let mut buffer = String::new();
        let title = escape(self.title.as_str());
        buffer.append(title.as_str());
        push_char(&mut buffer, '\t');
        let album = escape(self.album.as_str());
        buffer.append(album.as_str());
        push_char(&mut buffer, '\t');
        let artist = escape(self.artist.as_str());
        buffer.append(artist.as_str());
        push_char(&mut buffer, '\t');
        push_decimal(&mut buffer, self.disc_number as u64);
        push_char(&mut buffer, '\t');
        push_decimal(&mut buffer, self.track_number as u64);
        push_char(&mut buffer, '\t');
        let path = escape(self.path.as_str());
        buffer.append(path.as_str());
        push_char(&mut buffer, '\t');
        buffer.append(self.gain.as_str());
        push_char(&mut buffer, '\t');
        push_decimal(&mut buffer, self.year as u64);
        push_char(&mut buffer, '\n');
        proof {
            assert(buffer@ =~= song_line(self@));
        }
        buffer
    }

    /// Read a song back from its database line.
    pub fn deserialize(s: &str) -> (r: Result<Song, SongError>)
        ensures
            match r {
                Ok(song) => song_from_line(s@) == Ok::<SongView, SongError>(song@),
                Err(e) => song_from_line(s@) == Err::<SongView, SongError>(e),
            },
    {
        let n = s.unicode_len();
        if n == 0 {
            return Err(SongError::EmptySong);
        }
        //`file.lines()` will not include newlines
        //but song.to_string() will.
        let t = if s.get_char(n - 1) == '\n' {
            s.substring_char(0, n - 1)
        } else {
            s
        };
        proof {
            if s@.last() == '\n' {
                assert(t@ =~= s@.drop_last());
            }
        }
        let parts = split_str(t, '\t');
        let ghost f = split_on(t@, '\t');
        proof {
            assert(views(parts@) == f);
            assert(f.len() == parts@.len());
            assert(forall|k: int| 0 <= k < f.len() ==> f[k] == #[trigger] parts@[k]@);
        }
        let len = parts.len();
        if len < 2 {
            return Err(SongError::MissingAlbum);
        }
        if len < 3 {
            return Err(SongError::MissingArtist);
        }
        if len < 4 {
            return Err(SongError::MissingDiscNumber);
        }
        let disc_number = match parse_number(parts[3].as_str(), 255) {
            Some(v) => {
                proof {
                    assert(f[3] == parts@[3]@);
                    assert(parse_unsigned(f[3], 255) == Some(v as int));
                }
                v as u8
            },
            None => return Err(SongError::InvalidDiscNumber),
        };
        if len < 5 {
            return Err(SongError::MissingTrackNumber);
        }
        let track_number = match parse_number(parts[4].as_str(), 255) {
            Some(v) => {
                proof {
                    assert(f[4] == parts@[4]@);
                    assert(parse_unsigned(f[4], 255) == Some(v as int));
                }
                v as u8
            },
            None => return Err(SongError::InvalidTrackNumber),
        };
        if len < 6 {
            return Err(SongError::MissingPath);
        }
        if len < 7 {
            return Err(SongError::MissingGain);
        }
        let gain_ok = is_float_text(parts[6].as_str());
        proof {
            assert(f[6] == parts@[6]@);
        }
        if !gain_ok {
            return Err(SongError::InvalidGain);
        }
        let year: u16 = if len >= 8 {
            match parse_number(parts[7].as_str(), 65535) {
                Some(v) => {
                    proof {
                        assert(f[7] == parts@[7]@);
                    assert(parse_unsigned(f[7], 65535) == Some(v as int));
                    }
                    v as u16
                },
                None => 0,
            }
        } else {
            0
        };
        let song = Song {
                title: parts[0].clone(),
                album: parts[1].clone(),
                artist: parts[2].clone(),
                disc_number,
                track_number,
                path: parts[5].clone(),
                gain: parts[6].clone(),
                year,
            };
        proof {
            assert(song@ == song_from_line(s@).unwrap());
        }
        Ok(song)
    }
}


/// The song read back from a text that was written for it: the text fields
/// lose their tabs and line breaks, everything else is kept.
pub open spec fn stored_song(s: SongView) -> SongView {
    SongView {
        title: without_breaks(s.title),
        album: without_breaks(s.album),
        artist: without_breaks(s.artist),
        disc_number: s.disc_number,
        track_number: s.track_number,
        path: without_breaks(s.path),
        gain: s.gain,
        year: s.year,
    }
}

/// Reading back the line written for a song gives the song, with tabs and
/// line breaks taken out of its text fields, provided its gain text reads
/// as a number.
pub proof fn lemma_song_line_round_trip(s: SongView)
    requires
        float_text(s.gain),
    ensures
        song_from_line(song_line(s)) == Ok::<SongView, SongError>(stored_song(s)),
{
    lemma_song_body_round_trip(s);
    let line = song_line(s);
    assert(line.drop_last() =~= song_body(s));
}

/// A song's line without its line break reads back the same way, and has
/// no line break inside.
pub proof fn lemma_song_body_round_trip(s: SongView)
    requires
        float_text(s.gain),
    ensures
        song_from_line(song_body(s)) == Ok::<SongView, SongError>(stored_song(s)),
        forall|i: int| 0 <= i < song_body(s).len() ==> song_body(s)[i] != '\n',
        song_body(s).len() > 0,
        '0' <= song_body(s).last() <= '9',
{
    let tab = seq!['\t'];
    let f0 = without_breaks(s.title);
    let f1 = without_breaks(s.album);
    let f2 = without_breaks(s.artist);
    let f3 = decimal(s.disc_number as nat);
    let f4 = decimal(s.track_number as nat);
    let f5 = without_breaks(s.path);
    let f6 = s.gain;
    let f7 = decimal(s.year as nat);
    lemma_float_text_tab_free(s.gain);
    assert(no_breaks(s.gain));
    lemma_without_breaks_has_none(s.title);
    lemma_without_breaks_has_none(s.album);
    lemma_without_breaks_has_none(s.artist);
    lemma_without_breaks_has_none(s.path);
    lemma_decimal_has_no_tab(s.disc_number as nat);
    lemma_decimal_has_no_tab(s.track_number as nat);
    lemma_decimal_has_no_tab(s.year as nat);
    lemma_split_without_sep(f0, '\t');
    lemma_split_without_sep(f1, '\t');
    lemma_split_without_sep(f2, '\t');
    lemma_split_without_sep(f3, '\t');
    lemma_split_without_sep(f4, '\t');
    lemma_split_without_sep(f5, '\t');
    lemma_split_without_sep(f6, '\t');
    lemma_split_without_sep(f7, '\t');
    let p1 = f0 + tab + f1;
    let p2 = p1 + tab + f2;
    let p3 = p2 + tab + f3;
    let p4 = p3 + tab + f4;
    let p5 = p4 + tab + f5;
    let p6 = p5 + tab + f6;
    let p7 = p6 + tab + f7;
    lemma_split_concat(f0, f1, '\t');
    lemma_split_concat(p1, f2, '\t');
    lemma_split_concat(p2, f3, '\t');
    lemma_split_concat(p3, f4, '\t');
    lemma_split_concat(p4, f5, '\t');
    lemma_split_concat(p5, f6, '\t');
    lemma_split_concat(p6, f7, '\t');
    let body = song_body(s);
    assert(body =~= p7);
    lemma_decimal_digits(s.year as nat);
    assert(body.last() == f7.last());
    assert(f7[f7.len() - 1] == f7.last());
    assert(body.last() != '\n');
    assert forall|i: int| 0 <= i < body.len() implies body[i] != '\n' by {
        lemma_decimal_digits(s.disc_number as nat);
        lemma_decimal_digits(s.track_number as nat);
        if i < f0.len() {
            assert(body[i] == f0[i]);
        } else if i < p1.len() {
            assert(p1[i] == body[i]);
            if i > f0.len() { assert(p1[i] == f1[i - f0.len() - 1]); }
        } else if i < p2.len() {
            assert(p2[i] == body[i]);
            if i > p1.len() { assert(p2[i] == f2[i - p1.len() - 1]); }
        } else if i < p3.len() {
            assert(p3[i] == body[i]);
            if i > p2.len() { assert('0' <= f3[i - p2.len() - 1] <= '9'); }
        } else if i < p4.len() {
            assert(p4[i] == body[i]);
            if i > p3.len() { assert('0' <= f4[i - p3.len() - 1] <= '9'); }
        } else if i < p5.len() {
            assert(p5[i] == body[i]);
            if i > p4.len() { assert(p5[i] == f5[i - p4.len() - 1]); }
        } else if i < p6.len() {
            assert(p6[i] == body[i]);
            if i > p5.len() { assert(p6[i] == f6[i - p5.len() - 1]); }
        } else {
            if i > p6.len() { assert('0' <= f7[i - p6.len() - 1] <= '9'); }
        }
    }
    let f = split_on(p7, '\t');
    assert(f =~= seq![f0, f1, f2, f3, f4, f5, f6, f7]);
    lemma_parse_decimal(s.disc_number as nat, 255);
    lemma_parse_decimal(s.track_number as nat, 255);
    lemma_parse_decimal(s.year as nat, 65535);
}

/// A song whose text fields have no tabs or line breaks reads back exactly
/// as it was written.
pub proof fn lemma_clean_song_round_trip(s: SongView)
    requires
        no_breaks(s.title),
        no_breaks(s.album),
        no_breaks(s.artist),
        no_breaks(s.path),
        float_text(s.gain),
    ensures
        song_from_line(song_line(s)) == Ok::<SongView, SongError>(s),
{
    lemma_song_line_round_trip(s);
    lemma_without_breaks_keeps_clean(s.title);
    lemma_without_breaks_keeps_clean(s.album);
    lemma_without_breaks_keeps_clean(s.artist);
    lemma_without_breaks_keeps_clean(s.path);
}


/// The contents of a list of songs.
pub open spec fn song_views(v: Seq<Song>) -> Seq<SongView> {
    v.map_values(|x: Song| x@)
}

/// The database text for a list of songs: their lines one after another.
pub open spec fn songs_text(s: Seq<SongView>) -> Seq<char>
    decreases s.len(),
{
    if s.len() == 0 {
        Seq::<char>::empty()
    } else {
        songs_text(s.drop_last()) + song_line(s.last())
    }
}

/// The songs of a list of lines: every line must be a song, and the first
/// line that is not decides the error.
pub open spec fn songs_from_lines(lines: Seq<Seq<char>>) -> Result<Seq<SongView>, SongError>
    decreases lines.len(),
{
    if lines.len() == 0 {
        Ok(Seq::<SongView>::empty())
    } else {
        match songs_from_lines(lines.drop_last()) {
            Err(e) => Err(e),
            Ok(v) => match song_from_line(lines.last()) {
                Ok(x) => Ok(v.push(x)),
                Err(e) => Err(e),
            },
        }
    }
}

/// The songs of a database text: white space around it ignored, one song
/// per line.
pub open spec fn songs_from_text(t: Seq<char>) -> Result<Seq<SongView>, SongError> {
    songs_from_lines(split_on(trimmed(t), '\n'))
}

/// The database text for a list of songs.
pub fn serialize_songs(songs: &[Song]) -> (r: String)
    ensures
        r@ == songs_text(song_views(songs@)),
{
    let mut buffer = String::new();
    let mut i: usize = 0;
    while i < songs.len()
        invariant
            i <= songs.len(),
            buffer@ == songs_text(song_views(songs@.take(i as int))),
        decreases songs.len() - i,
    {
        let line = songs[i].serialize();
        buffer.append(line.as_str());
        proof {
            assert(song_views(songs@.take(i + 1)).drop_last() =~= song_views(songs@.take(i as int)));
            assert(song_views(songs@.take(i + 1)).last() == songs@[i as int]@);
        }
        i = i + 1;
    }
    proof {
        assert(songs@.take(songs.len() as int) =~= songs@);
    }
    buffer
}

/// Read a list of songs back from database text.
pub fn deserialize_songs(s: &str) -> (r: Result<Vec<Song>, SongError>)
    ensures
        match r {
            Ok(v) => songs_from_text(s@) == Ok::<Seq<SongView>, SongError>(song_views(v@)),
            Err(e) => songs_from_text(s@) == Err::<Seq<SongView>, SongError>(e),
        },
{
    let t = trim(s);
    let lines = split_str(t, '\n');
    let ghost ls = split_on(t@, '\n');
    let mut out: Vec<Song> = Vec::new();
    let mut i: usize = 0;
    proof {
        assert(ls.take(0) =~= Seq::<Seq<char>>::empty());
        assert(song_views(out@) =~= Seq::<SongView>::empty());
    }
    while i < lines.len()
        invariant
            i <= lines.len(),
            views(lines@) == ls,
            ls == split_on(trimmed(s@), '\n'),
            songs_from_lines(ls.take(i as int)) == Ok::<Seq<SongView>, SongError>(song_views(out@)),
        decreases lines.len() - i,
    {
        proof {
            assert(ls.take(i + 1).drop_last() =~= ls.take(i as int));
            assert(ls.take(i + 1).last() == lines@[i as int]@);
        }
        match Song::deserialize(lines[i].as_str()) {
            Ok(song) => {
                let ghost before = out@;
                out.push(song);
                proof {
                    assert(song_views(out@) =~= song_views(before).push(song@));
                }
            },
            Err(e) => {
                proof {
                    assert(songs_from_lines(ls.take(i + 1)) == Err::<Seq<SongView>, SongError>(e));
                    lemma_lines_error_stays(ls, i as int + 1);
                }
                return Err(e);
            },
        }
        i = i + 1;
    }
    proof {
        assert(ls.take(lines.len() as int) =~= ls);
    }
    Ok(out)
}

/// An error in the first `k` lines is the error of all of them.
pub proof fn lemma_lines_error_stays(lines: Seq<Seq<char>>, k: int)
    requires
        0 <= k <= lines.len(),
        songs_from_lines(lines.take(k)) is Err,
    ensures
        songs_from_lines(lines) == songs_from_lines(lines.take(k)),
    decreases lines.len() - k,
{
    if k == lines.len() {
        assert(lines.take(k) =~= lines);
    } else {
        assert(lines.take(k + 1).drop_last() =~= lines.take(k));
        lemma_lines_error_stays(lines, k + 1);
    }
}

/// The lines of a list of songs, without the last line break, joined by
/// line breaks.
pub open spec fn joined_bodies(s: Seq<SongView>) -> Seq<char>
    decreases s.len(),
{
    if s.len() <= 1 {
        if s.len() == 1 { song_body(s[0]) } else { Seq::<char>::empty() }
    } else {
        joined_bodies(s.drop_last()) + seq!['\n'] + song_body(s.last())
    }
}

/// Whether every gain text of a list reads as a number.
pub open spec fn gains_clean(s: Seq<SongView>) -> bool {
    forall|i: int| 0 <= i < s.len() ==> float_text(#[trigger] s[i].gain)
}

pub proof fn lemma_songs_text_joined(s: Seq<SongView>)
    requires
        s.len() > 0,
    ensures
        songs_text(s) == joined_bodies(s) + seq!['\n'],
    decreases s.len(),
{
    if s.len() == 1 {
        assert(s.drop_last() =~= Seq::<SongView>::empty());
        assert(songs_text(s.drop_last()) =~= Seq::<char>::empty());
        assert(songs_text(s) =~= song_body(s[0]) + seq!['\n']);
    } else {
        lemma_songs_text_joined(s.drop_last());
        assert(songs_text(s) =~= joined_bodies(s) + seq!['\n']);
    }
}

pub proof fn lemma_split_joined(s: Seq<SongView>)
    requires
        s.len() > 0,
        gains_clean(s),
    ensures
        split_on(joined_bodies(s), '\n') == s.map_values(|x: SongView| song_body(x)),
        songs_from_lines(split_on(joined_bodies(s), '\n')) == Ok::<Seq<SongView>, SongError>(
            s.map_values(|x: SongView| stored_song(x)),
        ),
    decreases s.len(),
{
    let last = s.last();
    assert(float_text(s[s.len() - 1].gain));
    lemma_song_body_round_trip(last);
    lemma_split_without_sep(song_body(last), '\n');
    if s.len() == 1 {
        assert(s.map_values(|x: SongView| song_body(x)) =~= seq![song_body(s[0])]);
        assert(s.map_values(|x: SongView| stored_song(x)) =~= seq![stored_song(s[0])]);
        let ls = seq![song_body(s[0])];
        assert(split_on(joined_bodies(s), '\n') == ls);
        assert(ls.drop_last() =~= Seq::<Seq<char>>::empty());
        assert(songs_from_lines(Seq::<Seq<char>>::empty()) == Ok::<Seq<SongView>, SongError>(Seq::<SongView>::empty()));
        assert(ls.last() == song_body(s[0]));
        assert(Seq::<SongView>::empty().push(stored_song(s[0])) =~= seq![stored_song(s[0])]);
    } else {
        let init = s.drop_last();
        assert(gains_clean(init)) by {
            assert forall|i: int| 0 <= i < init.len() implies float_text(#[trigger] init[i].gain) by {
                assert(init[i] == s[i]);
            }
        }
        lemma_split_joined(init);
        lemma_split_concat(joined_bodies(init), song_body(last), '\n');
        let ls = split_on(joined_bodies(s), '\n');
        assert(ls =~= s.map_values(|x: SongView| song_body(x)));
        assert(ls.drop_last() =~= init.map_values(|x: SongView| song_body(x)));
        assert(ls.drop_last() == split_on(joined_bodies(init), '\n'));
        assert(ls.last() == song_body(last));
        assert(s.map_values(|x: SongView| stored_song(x)) =~= init.map_values(
            |x: SongView| stored_song(x),
        ).push(stored_song(last)));
    }
}

/// The first character of the joined lines is the first of the first
/// song's stored title when that title is not empty, and the last is a
/// digit of the last song's year.
pub proof fn lemma_joined_ends(s: Seq<SongView>)
    requires
        s.len() > 0,
        without_breaks(s[0].title).len() > 0,
    ensures
        joined_bodies(s).len() > 0,
        joined_bodies(s)[0] == without_breaks(s[0].title)[0],
        '0' <= joined_bodies(s).last() <= '9',
    decreases s.len(),
{
    lemma_song_body_digit_end(s.last());
    if s.len() == 1 {
        assert(song_body(s[0])[0] == without_breaks(s[0].title)[0]);
    } else {
        let init = s.drop_last();
        assert(init[0] == s[0]);
        lemma_joined_ends(init);
    }
}

pub proof fn lemma_song_body_digit_end(x: SongView)
    ensures
        song_body(x).len() > 0,
        '0' <= song_body(x).last() <= '9',
{
    lemma_decimal_digits(x.year as nat);
    let d = decimal(x.year as nat);
    assert(song_body(x).last() == d[d.len() - 1]);
}

/// Reading back the text written for a list of songs gives the list, with
/// tabs and line breaks taken out of the text fields, provided the list is
/// not empty, every gain text reads as a number, and the first song's
/// stored title does not start with white space (the text is trimmed
/// before it is read).
pub proof fn lemma_songs_round_trip(s: Seq<SongView>)
    requires
        s.len() > 0,
        gains_clean(s),
        without_breaks(s[0].title).len() > 0,
        !is_space(without_breaks(s[0].title)[0]),
    ensures
        songs_from_text(songs_text(s)) == Ok::<Seq<SongView>, SongError>(
            s.map_values(|x: SongView| stored_song(x)),
        ),
{
    lemma_songs_text_joined(s);
    lemma_joined_ends(s);
    let j = joined_bodies(s);
    let t = j + seq!['\n'];
    lemma_trim_start_skip(t, 0);
    assert(t.skip(0) =~= t);
    assert(t[j.len() - 1] == j.last());
    assert forall|i: int| j.len() <= i < t.len() implies is_space(#[trigger] t[i]) by {
        assert(t[i] == '\n');
    }
    lemma_trim_end_take(t, j.len() as int);
    assert(t.take(j.len() as int) =~= j);
    lemma_split_joined(s);
}


/// The first year that some song of the list gives, or 0 when none does.
pub open spec fn first_year(s: Seq<Song>) -> u16
    decreases s.len(),
{
    if s.len() == 0 {
        0
    } else if s[0].year != 0 {
        s[0].year
    } else {
        first_year(s.drop_first())
    }
}

/// An album: its title and its songs.
#[derive(Debug, Default)]
pub struct Album {
    pub title: String,
    pub songs: Vec<Song>,
}

impl Album {
    /// The album's year: the first non-zero year among its songs, else 0.
    pub fn year(&self) -> (r: u16)
        ensures
            r == first_year(self.songs@),
    {
        let mut i: usize = 0;
        proof {
            assert(self.songs@.skip(0) =~= self.songs@);
        }
        while i < self.songs.len()
            invariant
                i <= self.songs.len(),
                first_year(self.songs@) == first_year(self.songs@.skip(i as int)),
            decreases self.songs.len() - i,
        {
            proof {
                assert(self.songs@.skip(i as int).drop_first() =~= self.songs@.skip(i + 1));
                assert(self.songs@.skip(i as int)[0] == self.songs@[i as int]);
            }
            if self.songs[i].year != 0 {
                return self.songs[i].year;
            }
            i = i + 1;
        }
        proof {
            assert(self.songs@.skip(i as int) =~= Seq::<Song>::empty());
        }
        0
    }
}

/// An artist: their albums.
#[derive(Debug, Default)]
pub struct Artist {
    pub albums: Vec<Album>,
}

/// How a library scan ended.
#[derive(Debug)]
pub enum ScanResult {
    Completed { elapsed: std::time::Duration, tracks: usize },
    CompletedWithErrors { elapsed: std::time::Duration, tracks: usize, errors: Vec<String> },
    FileInUse,
}

/// The outcome of a scan that could write its database file: complete, or
/// complete with the messages of the files that could not be read.
pub fn scan_result(elapsed: std::time::Duration, tracks: usize, errors: Vec<String>) -> (r: ScanResult)
    ensures
        errors@.len() == 0 ==> r == (ScanResult::Completed { elapsed, tracks }),
        errors@.len() > 0 ==> r == (ScanResult::CompletedWithErrors { elapsed, tracks, errors }),
{
    if errors.is_empty() {
        ScanResult::Completed { elapsed, tracks }
    } else {
        ScanResult::CompletedWithErrors { elapsed, tracks, errors }
    }
}


/// A character with ASCII capitals made small; every other character kept.
pub open spec fn ascii_lower_char(c: char) -> char {
    if 'A' <= c <= 'Z' {
        ((c as u32) + 32) as char
    } else {
        c
    }
}

/// A text with ASCII capitals made small.
pub open spec fn ascii_lower(s: Seq<char>) -> Seq<char> {
    s.map_values(|c: char| ascii_lower_char(c))
}

/// Whether a file extension names a file the scan reads: flac, mp3 or ogg,
/// in any mix of ASCII capitals and small letters.
pub open spec fn audio_extension(ext: Seq<char>) -> bool {
    let l = ascii_lower(ext);
    l == seq!['f', 'l', 'a', 'c'] || l == seq!['m', 'p', '3'] || l == seq!['o', 'g', 'g']
}

/// Whether `c`, with ASCII capitals made small, is `w`, a small letter or
/// a digit.
fn lower_is(c: char, w: char) -> (r: bool)
    requires
        'a' <= w <= 'z' || '0' <= w <= '9',
    ensures
        r == (ascii_lower_char(c) == w),
{
    if c == w {
        true
    } else if 'A' <= c && c <= 'Z' {
        let x = (c as u32) + 32;
        proof {
            assert(97 <= x <= 122);
            assert((x as char) as u32 == x);
        }
        x == (w as u32)
    } else {
        false
    }
}

/// Whether `chars`, with ASCII capitals made small, is `word`.
fn lower_equals(chars: &[char], word: &[char]) -> (r: bool)
    requires
        forall|i: int| 0 <= i < word@.len() ==> 'a' <= #[trigger] word@[i] <= 'z' || '0' <= word@[i] <= '9',
    ensures
        r == (ascii_lower(chars@) == word@),
{
    if chars.len() != word.len() {
        proof {
            assert(ascii_lower(chars@).len() != word@.len());
        }
        return false;
    }
    let mut i: usize = 0;
    while i < chars.len()
        invariant
            i <= chars.len() == word.len(),
            forall|i: int| 0 <= i < word@.len() ==> 'a' <= #[trigger] word@[i] <= 'z' || '0' <= word@[i] <= '9',
            forall|j: int| 0 <= j < i ==> ascii_lower_char(#[trigger] chars@[j]) == word@[j],
        decreases chars.len() - i,
    {
        if !lower_is(chars[i], word[i]) {
            proof {
                assert(ascii_lower(chars@)[i as int] != word@[i as int]);
            }
            return false;
        }
        i = i + 1;
    }
    proof {
        assert(ascii_lower(chars@) =~= word@);
    }
    true
}

/// Whether the scan reads files with this extension (see `audio_extension`).
pub fn is_audio_extension(ext: &str) -> (r: bool)
    ensures
        r == audio_extension(ext@),
{
    let chars = chars_of(ext);
    let flac = ['f', 'l', 'a', 'c'];
    let mp3 = ['m', 'p', '3'];
    let ogg = ['o', 'g', 'g'];
    proof {
        assert(flac@ =~= seq!['f', 'l', 'a', 'c']);
        assert(mp3@ =~= seq!['m', 'p', '3']);
        assert(ogg@ =~= seq!['o', 'g', 'g']);
    }
    lower_equals(chars.as_slice(), flac.as_slice()) || lower_equals(chars.as_slice(), mp3.as_slice())
        || lower_equals(chars.as_slice(), ogg.as_slice())
}

} // verus!
