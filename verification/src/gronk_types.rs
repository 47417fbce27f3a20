//! The song record of the terminal players, filled from a file's tags.
use vstd::prelude::*;
use crate::text::{parse_number, parse_unsigned, split_once, split_once_char};

verus! {

/// A song: track and disc number, title, album, artist, file and length.
#[derive(Debug)]
pub struct Song {
    pub number: u16,
    pub disc: u16,
    pub name: String,
    pub album: String,
    pub artist: String,
    pub path: String,
    pub duration: std::time::Duration,
}

/// The tags a song is filled from.
#[derive(Debug, Clone, Copy, PartialEq, Eq, Structural)]
pub enum TagKey {
    AlbumArtist,
    Artist,
    Album,
    TrackTitle,
    TrackNumber,
    DiscNumber,
    Other,
}

/// The number a track or disc tag gives: what comes before a `/` (as in
/// `3/12`), or the whole text; 1 where that is not a 16-bit number.
pub open spec fn tag_number(value: Seq<char>) -> u16 {
    let part = match split_once(value, '/') {
        Some((num, _)) => num,
        None => value,
    };
    match parse_unsigned(part, 65535) {
        Some(n) => n as u16,
        None => 1,
    }
}

/// The number a track or disc tag gives.
pub fn parse_tag_number(value: &str) -> (r: u16)
    ensures
        r == tag_number(value@),
{
    let part = match split_once_char(value, '/') {
        Some((num, _)) => num,
        None => value,
    };
    match parse_number(part, 65535) {
        Some(n) => n as u16,
        None => 1,
    }
}

/// The fields of a song that its tags fill.
pub struct TagFields {
    pub number: u16,
    pub disc: u16,
    pub name: Seq<char>,
    pub album: Seq<char>,
    pub artist: Seq<char>,
}

/// The tag fields of a song.
pub open spec fn fields_of(s: Song) -> TagFields {
    TagFields { number: s.number, disc: s.disc, name: s.name@, album: s.album@, artist: s.artist@ }
}

/// The fields before any tag is read: no numbers, empty texts.
pub open spec fn blank_fields() -> TagFields {
    TagFields { number: 0, disc: 0, name: Seq::empty(), album: Seq::empty(), artist: Seq::empty() }
}

/// One tag taken into the fields: the album artist always sets the artist,
/// the artist tag only while no artist is known; title, album, track and
/// disc set their fields; other tags change nothing.
pub open spec fn with_tag(f: TagFields, key: TagKey, value: Seq<char>) -> TagFields {
    match key {
        TagKey::AlbumArtist => TagFields { artist: value, ..f },
        TagKey::Artist => if f.artist.len() == 0 {
            TagFields { artist: value, ..f }
        } else {
            f
        },
        TagKey::Album => TagFields { album: value, ..f },
        TagKey::TrackTitle => TagFields { name: value, ..f },
        TagKey::TrackNumber => TagFields { number: tag_number(value), ..f },
        TagKey::DiscNumber => TagFields { disc: tag_number(value), ..f },
        TagKey::Other => f,
    }
}

/// The fields after taking `tags` in order.
pub open spec fn with_tags(f: TagFields, tags: Seq<(TagKey, String)>) -> TagFields
    decreases tags.len(),
{
    if tags.len() == 0 {
        f
    } else {
        with_tag(with_tags(f, tags.drop_last()), tags.last().0, tags.last().1@)
    }
}

/// The song a file's tags make: the tags taken in order from blank fields,
/// then "Unknown Artist" where no tag gave an artist.
pub open spec fn tagged_fields(tags: Seq<(TagKey, String)>) -> TagFields {
    let f = with_tags(blank_fields(), tags);
    if f.artist.len() == 0 {
        TagFields { artist: "Unknown Artist"@, ..f }
    } else {
        f
    }
}

impl Song {
    /// Take one tag into the song: the album artist always sets the artist,
    /// the artist tag only while no artist is known; title, album, track
    /// and disc set their fields; other tags are ignored.
    pub fn apply_tag(&mut self, key: TagKey, value: &str)
        ensures
            fields_of(*final(self)) == with_tag(fields_of(*old(self)), key, value@),
            final(self).path == old(self).path,
            final(self).duration == old(self).duration,
    {
        match key {
            TagKey::AlbumArtist => self.artist = value.to_owned(),
            TagKey::Artist => {
                if self.artist.unicode_len() == 0 {
                    self.artist = value.to_owned();
                }
            },
            TagKey::Album => self.album = value.to_owned(),
            TagKey::TrackTitle => self.name = value.to_owned(),
            TagKey::TrackNumber => self.number = parse_tag_number(value),
            TagKey::DiscNumber => self.disc = parse_tag_number(value),
            TagKey::Other => {},
        }
    }

    /// The song of a file at `path` with the given tags, taken in order; a
    /// song without an artist is by "Unknown Artist".
    pub fn from_tags(path: String, tags: &[(TagKey, String)], duration: std::time::Duration) -> (r: Song)
        ensures
            fields_of(r) == tagged_fields(tags@),
            r.artist@.len() > 0,
            r.path@ == path@,
            r.duration == duration,
    {
        let mut song = Song {
            number: 0,
            disc: 0,
            name: String::new(),
            album: String::new(),
            artist: String::new(),
            path,
            duration,
        };
        let ghost p = song.path@;
        let mut i: usize = 0;
        while i < tags.len()
            invariant
                i <= tags.len(),
                song.path@ == p,
                song.duration == duration,
                fields_of(song) == with_tags(blank_fields(), tags@.take(i as int)),
            decreases tags.len() - i,
        {
            song.apply_tag(tags[i].0, tags[i].1.as_str());
            proof {
                let t = tags@.take(i + 1);
                assert(t.drop_last() =~= tags@.take(i as int));
                assert(t.last() == tags@[i as int]);
            }
            i = i + 1;
        }
        proof {
            assert(tags@.take(tags@.len() as int) =~= tags@);
            reveal_strlit("Unknown Artist");
        }
        if song.artist.unicode_len() == 0 {
            song.artist = "Unknown Artist".to_owned();
        }
        song
    }
}

} // verus!
