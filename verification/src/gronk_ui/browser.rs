//! Browser lists: named entries with a cursor, filtered by a query.
use vstd::prelude::*;
use crate::text::{contains_text, contains_str, lowercase, to_lowercase, text_lt, compare_text, TextOrder, lemma_text_lt_total, lemma_text_lt_transitive, lemma_text_lt_irreflexive};

verus! {

/// Which browser column is active.
#[derive(Debug, Clone, Copy, PartialEq, Eq, Structural)]
pub enum BrowserMode {
    Artist,
    Album,
    Song,
}

/// Whether an entry's lower-case name contains `query`.
pub open spec fn name_contains<T>(query: Seq<char>) -> spec_fn((String, T)) -> bool {
    |e: (String, T)| contains_text(lowercase(e.0@), query)
}

/// Named entries and the cursor.
#[derive(Debug)]
pub struct List<T> {
    pub list: Vec<(String, T)>,
    pub state: Option<usize>,
}

/// Whether a cursor points into a list of `len` entries (or is absent).
pub open spec fn cursor_fits(state: Option<usize>, len: int) -> bool {
    state matches Some(i) ==> i < len
}

impl<T> List<T> {
    /// Move the cursor one up, wrapping to the last entry.
    pub fn up(&mut self)
        requires
            cursor_fits(old(self).state, old(self).list@.len() as int),
        ensures
            final(self).list@ == old(self).list@,
            final(self).state == match old(self).state {
                Some(i) => Some(if i != 0 { (i - 1) as usize } else { (old(self).list@.len() - 1) as usize }),
                None => None,
            },
    {
        let len = self.list.len();
        if let Some(selected) = self.state {
            if selected != 0 {
                self.state = Some(selected - 1);
            } else {
                self.state = Some(len - 1);
            }
        }
    }

    /// Move the cursor one down, wrapping to the first entry.
    pub fn down(&mut self)
        requires
            cursor_fits(old(self).state, old(self).list@.len() as int),
        ensures
            final(self).list@ == old(self).list@,
            final(self).state == match old(self).state {
                Some(i) => Some(if i + 1 > old(self).list@.len() - 1 { 0usize } else { (i + 1) as usize }),
                None => None,
            },
    {
        let len = self.list.len();
        if let Some(selected) = self.state {
            if selected + 1 > len - 1 {
                self.state = Some(0);
            } else {
                self.state = Some(selected + 1);
            }
        }
    }

    /// The data of the entry under the cursor.
    pub fn get_selected_data(&self) -> (r: Option<&T>)
        requires
            cursor_fits(self.state, self.list@.len() as int),
        ensures
            match self.state {
                Some(i) => r == Some(&self.list@[i as int].1),
                None => r is None,
            },
    {
        match self.state {
            Some(index) => Some(&self.list[index].1),
            None => None,
        }
    }

    /// The name of the entry under the cursor; empty without a cursor.
    pub fn get_selected(&self) -> (r: String)
        requires
            cursor_fits(self.state, self.list@.len() as int),
        ensures
            match self.state {
                Some(i) => r@ == self.list@[i as int].0@,
                None => r@.len() == 0,
            },
    {
        match self.state {
            Some(index) => self.list[index].0.clone(),
            None => String::new(),
        }
    }

    /// The first entry's name.
    pub fn first(&self) -> (r: &String)
        requires
            self.list@.len() > 0,
        ensures
            r@ == self.list@[0].0@,
    {
        &self.list[0].0
    }

    /// Keep the entries whose lower-case name contains `query`, in order,
    /// with the cursor on the first of them (none if none is left).
    pub fn filter(&mut self, query: &str)
        ensures
            final(self).list@ == old(self).list@.filter(name_contains(query@)),
            final(self).state == if final(self).list@.len() == 0 { None } else { Some(0usize) },
    {
        let ghost p = name_contains::<T>(query@);
        let ghost orig = self.list@;
        let mut rest: Vec<(String, T)> = Vec::new();
        std::mem::swap(&mut rest, &mut self.list);
        let mut kept: Vec<(String, T)> = Vec::new();
        let ghost mut seen: Seq<(String, T)> = Seq::empty();
        proof {
            assert(orig =~= seen + rest@);
            reveal(Seq::filter);
        }
        while rest.len() > 0
            invariant
                p == name_contains::<T>(query@),
                orig == seen + rest@,
                kept@ == seen.filter(p),
            decreases rest.len(),
        {
            let e = rest.remove(0);
            let lower = to_lowercase(e.0.as_str());
            let keep = contains_str(lower.as_str(), query);
            let ghost before = kept@;
            proof {
                reveal_with_fuel(Seq::filter, 2);
                assert(seen.push(e).drop_last() =~= seen);
                assert(seen.push(e).last() == e);
                assert(orig =~= seen.push(e) + rest@);
                assert(p(e) == keep);
                assert(seen.push(e).filter(p) == if p(e) { seen.filter(p).push(e) } else { seen.filter(p) });
            }
            if keep {
                kept.push(e);
            }
            proof {
                seen = seen.push(e);
            }
        }
        proof {
            assert(seen =~= orig);
        }
        self.list = kept;
        if self.list.len() == 0 {
            self.state = None;
        } else {
            self.state = Some(0);
        }
    }
}

impl<T> List<T> {
    /// The entries' names, in order.
    pub fn get_list(&self) -> (r: Vec<String>)
        ensures
            r@.map_values(|s: String| s@) == self.list@.map_values(|e: (String, T)| e.0@),
    {
        let mut out: Vec<String> = Vec::new();
        let mut i: usize = 0;
        while i < self.list.len()
            invariant
                i <= self.list@.len(),
                out@.map_values(|s: String| s@) == self.list@.take(i as int).map_values(|e: (String, T)| e.0@),
            decreases self.list@.len() - i,
        {
            let ghost before = out@;
            out.push(self.list[i].0.clone());
            proof {
                assert(self.list@.take(i + 1).map_values(|e: (String, T)| e.0@) =~= self.list@.take(
                    i as int,
                ).map_values(|e: (String, T)| e.0@).push(self.list@[i as int].0@));
                assert(out@.map_values(|s: String| s@) =~= before.map_values(|s: String| s@).push(
                    self.list@[i as int].0@,
                ));
            }
            i = i + 1;
        }
        proof {
            assert(self.list@.take(self.list@.len() as int) =~= self.list@);
        }
        out
    }
}

/// What the browser must load from the library after its column changed:
/// nothing, the albums of an artist, or the songs of an album.
#[derive(Debug)]
pub enum Refresh {
    Nothing,
    AlbumsOf(String),
    SongsOf(String),
}

/// The three columns of the browser and the active one.
#[derive(Debug)]
pub struct Browser<A, B, S> {
    pub mode: BrowserMode,
    pub artist: List<A>,
    pub album: List<B>,
    pub song: List<S>,
}

/// The number of entries in the active column.
pub open spec fn active_len<A, B, S>(b: Browser<A, B, S>) -> int {
    match b.mode {
        BrowserMode::Artist => b.artist.list@.len() as int,
        BrowserMode::Album => b.album.list@.len() as int,
        BrowserMode::Song => b.song.list@.len() as int,
    }
}

/// The cursor of the active column.
pub open spec fn active_state<A, B, S>(b: Browser<A, B, S>) -> Option<usize> {
    match b.mode {
        BrowserMode::Artist => b.artist.state,
        BrowserMode::Album => b.album.state,
        BrowserMode::Song => b.song.state,
    }
}

impl<A, B, S> Browser<A, B, S> {
    /// Every cursor lies in its column.
    pub open spec fn well_formed(&self) -> bool {
        &&& cursor_fits(self.artist.state, self.artist.list@.len() as int)
        &&& cursor_fits(self.album.state, self.album.list@.len() as int)
        &&& cursor_fits(self.song.state, self.song.list@.len() as int)
    }

    /// A browser over the given columns, on the artist column.
    pub fn new(artist: List<A>, album: List<B>, song: List<S>) -> (r: Self)
        ensures
            r.mode == BrowserMode::Artist,
            r.artist == artist,
            r.album == album,
            r.song == song,
    {
        Browser { mode: BrowserMode::Artist, artist, album, song }
    }

    /// Keep the entries of the active column whose lower-case name contains
    /// `query`, the cursor on the first of them.
    pub fn search(&mut self, query: &str)
        ensures
            final(self).mode == old(self).mode,
            old(self).mode == BrowserMode::Artist ==> final(self).artist.list@ == old(self).artist.list@.filter(
                name_contains(query@),
            ) && final(self).artist.state == (if final(self).artist.list@.len() == 0 { None } else { Some(0usize) })
                && final(self).album == old(self).album && final(self).song == old(self).song,
            old(self).mode == BrowserMode::Album ==> final(self).album.list@ == old(self).album.list@.filter(
                name_contains(query@),
            ) && final(self).album.state == (if final(self).album.list@.len() == 0 { None } else { Some(0usize) })
                && final(self).artist == old(self).artist && final(self).song == old(self).song,
            old(self).mode == BrowserMode::Song ==> final(self).song.list@ == old(self).song.list@.filter(
                name_contains(query@),
            ) && final(self).song.state == (if final(self).song.list@.len() == 0 { None } else { Some(0usize) })
                && final(self).artist == old(self).artist && final(self).album == old(self).album,
    {
        match self.mode {
            BrowserMode::Artist => self.artist.filter(query),
            BrowserMode::Album => self.album.filter(query),
            BrowserMode::Song => self.song.filter(query),
        }
    }

    /// The names in the active column.
    pub fn get_list_items(&self) -> (r: Vec<String>)
        ensures
            self.mode == BrowserMode::Artist ==> r@.map_values(|s: String| s@) == self.artist.list@.map_values(
                |e: (String, A)| e.0@,
            ),
            self.mode == BrowserMode::Album ==> r@.map_values(|s: String| s@) == self.album.list@.map_values(
                |e: (String, B)| e.0@,
            ),
            self.mode == BrowserMode::Song ==> r@.map_values(|s: String| s@) == self.song.list@.map_values(
                |e: (String, S)| e.0@,
            ),
    {
        match self.mode {
            BrowserMode::Artist => self.artist.get_list(),
            BrowserMode::Album => self.album.get_list(),
            BrowserMode::Song => self.song.get_list(),
        }
    }

    /// The cursor of the active column.
    pub fn get_selection(&self) -> (r: Option<usize>)
        ensures
            r == active_state(*self),
    {
        match self.mode {
            BrowserMode::Artist => self.artist.state,
            BrowserMode::Album => self.album.state,
            BrowserMode::Song => self.song.state,
        }
    }

    /// What the active column needs loaded: the selected artist's albums
    /// on the album column, the selected album's songs on the song column.
    pub fn update(&self) -> (r: Refresh)
        requires
            self.well_formed(),
        ensures
            self.mode == BrowserMode::Artist ==> r is Nothing,
            self.mode == BrowserMode::Album ==> (r matches Refresh::AlbumsOf(n) && n@ == match self.artist.state {
                Some(i) => self.artist.list@[i as int].0@,
                None => Seq::<char>::empty(),
            }),
            self.mode == BrowserMode::Song ==> (r matches Refresh::SongsOf(n) && n@ == match self.album.state {
                Some(i) => self.album.list@[i as int].0@,
                None => Seq::<char>::empty(),
            }),
    {
        match self.mode {
            BrowserMode::Album => Refresh::AlbumsOf(self.artist.get_selected()),
            BrowserMode::Song => Refresh::SongsOf(self.album.get_selected()),
            BrowserMode::Artist => Refresh::Nothing,
        }
    }

    /// Move to the column on the right, if any, and say what it needs
    /// loaded.
    pub fn next_mode(&mut self) -> (r: Refresh)
        requires
            old(self).well_formed(),
        ensures
            final(self).artist == old(self).artist,
            final(self).album == old(self).album,
            final(self).song == old(self).song,
            final(self).mode == match old(self).mode {
                BrowserMode::Artist => BrowserMode::Album,
                _ => BrowserMode::Song,
            },
            old(self).mode == BrowserMode::Song ==> r is Nothing,
            old(self).mode == BrowserMode::Artist ==> (r matches Refresh::AlbumsOf(n) && n@ == match old(self).artist.state {
                Some(i) => old(self).artist.list@[i as int].0@,
                None => Seq::<char>::empty(),
            }),
            old(self).mode == BrowserMode::Album ==> (r matches Refresh::SongsOf(n) && n@ == match old(self).album.state {
                Some(i) => old(self).album.list@[i as int].0@,
                None => Seq::<char>::empty(),
            }),
    {
        match self.mode {
            BrowserMode::Artist => self.mode = BrowserMode::Album,
            BrowserMode::Album => self.mode = BrowserMode::Song,
            BrowserMode::Song => return Refresh::Nothing,
        }
        self.update()
    }

    /// Move to the column on the left, if any.
    pub fn prev_mode(&mut self)
        ensures
            final(self).artist == old(self).artist,
            final(self).album == old(self).album,
            final(self).song == old(self).song,
            final(self).mode == match old(self).mode {
                BrowserMode::Song => BrowserMode::Album,
                _ => BrowserMode::Artist,
            },
    {
        match self.mode {
            BrowserMode::Artist => {},
            BrowserMode::Album => self.mode = BrowserMode::Artist,
            BrowserMode::Song => self.mode = BrowserMode::Album,
        }
    }

    /// The active column's title.
    pub fn title(&self) -> (r: String)
        ensures
            r@ == match self.mode {
                BrowserMode::Artist => "Artist"@,
                BrowserMode::Album => "Album"@,
                BrowserMode::Song => "Song"@,
            },
    {
        match self.mode {
            BrowserMode::Artist => "Artist".to_string(),
            BrowserMode::Album => "Album".to_string(),
            BrowserMode::Song => "Song".to_string(),
        }
    }

    /// Move the active column's cursor one up, wrapping.
    pub fn up(&mut self)
        requires
            old(self).well_formed(),
        ensures
            final(self).well_formed(),
            final(self).mode == old(self).mode,
            old(self).mode == BrowserMode::Artist ==> final(self).album == old(self).album && final(self).song
                == old(self).song && final(self).artist.list@ == old(self).artist.list@,
            old(self).mode == BrowserMode::Album ==> final(self).artist == old(self).artist && final(self).song
                == old(self).song && final(self).album.list@ == old(self).album.list@,
            old(self).mode == BrowserMode::Song ==> final(self).artist == old(self).artist && final(self).album
                == old(self).album && final(self).song.list@ == old(self).song.list@,
            active_state(*final(self)) == match active_state(*old(self)) {
                Some(i) => Some(if i != 0 { (i - 1) as usize } else { (active_len(*old(self)) - 1) as usize }),
                None => None,
            },
    {
        match self.mode {
            BrowserMode::Artist => self.artist.up(),
            BrowserMode::Album => self.album.up(),
            BrowserMode::Song => self.song.up(),
        }
    }

    /// Move the active column's cursor one down, wrapping.
    pub fn down(&mut self)
        requires
            old(self).well_formed(),
        ensures
            final(self).well_formed(),
            final(self).mode == old(self).mode,
            old(self).mode == BrowserMode::Artist ==> final(self).album == old(self).album && final(self).song
                == old(self).song && final(self).artist.list@ == old(self).artist.list@,
            old(self).mode == BrowserMode::Album ==> final(self).artist == old(self).artist && final(self).song
                == old(self).song && final(self).album.list@ == old(self).album.list@,
            old(self).mode == BrowserMode::Song ==> final(self).artist == old(self).artist && final(self).album
                == old(self).album && final(self).song.list@ == old(self).song.list@,
            active_state(*final(self)) == match active_state(*old(self)) {
                Some(i) => Some(if i + 1 > active_len(*old(self)) - 1 { 0usize } else { (i + 1) as usize }),
                None => None,
            },
    {
        match self.mode {
            BrowserMode::Artist => self.artist.down(),
            BrowserMode::Album => self.album.down(),
            BrowserMode::Song => self.song.down(),
        }
    }

    /// Whether the song column is active.
    pub fn is_song(&self) -> (r: bool)
        ensures
            r == (self.mode == BrowserMode::Song),
    {
        match self.mode {
            BrowserMode::Song => true,
            _ => false,
        }
    }
}

/// Whether an entry's lower-case name is `k`.
pub open spec fn named<T>(k: Seq<char>) -> spec_fn((String, T)) -> bool {
    |e: (String, T)| lowercase(e.0@) == k
}

/// Whether entries are in the order of their lower-case names.
pub open spec fn sorted_by_name<T>(s: Seq<(String, T)>) -> bool {
    forall|i: int, j: int|
        #![trigger s[i], s[j]]
        0 <= i < j < s.len() ==> !text_lt(lowercase(s[j].0@), lowercase(s[i].0@))
}

proof fn lemma_insert_keeps_groups<T>(out: Seq<(String, T)>, p: int, e: (String, T), k: Seq<char>)
    requires
        0 <= p <= out.len(),
        forall|q: int| p <= q < out.len() ==> text_lt(lowercase(e.0@), lowercase(#[trigger] out[q].0@)),
    ensures
        out.insert(p, e).filter(named(k)) == out.filter(named(k)) + seq![e].filter(named(k)),
{
    let f = named::<T>(k);
    let a = out.take(p);
    let b = out.skip(p);
    assert(out.insert(p, e) =~= a + seq![e] + b);
    assert(out =~= a + b);
    Seq::filter_distributes_over_add(a + seq![e], b, f);
    Seq::filter_distributes_over_add(a, seq![e], f);
    Seq::filter_distributes_over_add(a, b, f);
    Seq::filter_distributes_over_add(a.filter(f), seq![e].filter(f), f);
    if lowercase(e.0@) == k {
        assert(b.filter(f) =~= Seq::<(String, T)>::empty()) by {
            assert forall|q: int| 0 <= q < b.len() implies !f(#[trigger] b[q]) by {
                assert(b[q] == out[p + q]);
                lemma_text_lt_irreflexive(k);
            }
            assert forall|x: (String, T)| !b.filter(f).contains(x) by {
                if b.filter(f).contains(x) {
                    b.lemma_filter_contains_rev(f, x);
                }
            }
            if b.filter(f).len() > 0 {
                assert(b.filter(f).contains(b.filter(f)[0]));
            }
        }
        assert(out.insert(p, e).filter(f) =~= a.filter(f) + seq![e].filter(f));
        assert(out.filter(f) =~= a.filter(f));
    } else {
        reveal_with_fuel(Seq::filter, 2);
        assert(seq![e].filter(f) =~= Seq::<(String, T)>::empty()) by {
            assert(seq![e].drop_last() =~= Seq::<(String, T)>::empty());
        }
        assert(out.insert(p, e).filter(f) =~= a.filter(f) + b.filter(f));
    }
}

/// Sort entries by lower-case name, keeping the order of entries whose
/// lower-case names are equal (a stable sort).
pub fn sort_by_name<T>(v: Vec<(String, T)>) -> (r: Vec<(String, T)>)
    ensures
        sorted_by_name(r@),
        forall|k: Seq<char>| #[trigger] r@.filter(named(k)) == v@.filter(named(k)),
{
    let ghost orig = v@;
    let mut rest = v;
    let mut out: Vec<(String, T)> = Vec::new();
    let mut keys: Vec<String> = Vec::new();
    let ghost mut seen: Seq<(String, T)> = Seq::empty();
    proof {
        assert(orig =~= seen + rest@);
    }
    while rest.len() > 0
        invariant
            orig == seen + rest@,
            sorted_by_name(out@),
            keys@.len() == out@.len(),
            forall|q: int| 0 <= q < out@.len() ==> #[trigger] keys@[q]@ == lowercase(out@[q].0@),
            forall|k: Seq<char>| #[trigger] out@.filter(named(k)) == seen.filter(named(k)),
        decreases rest.len(),
    {
        let e = rest.remove(0);
        let key = to_lowercase(e.0.as_str());
        let mut p: usize = 0;
        let mut done = false;
        while p < keys.len() && !done
            invariant
                keys@.len() == out@.len(),
                p <= keys@.len(),
                forall|q: int| 0 <= q < out@.len() ==> #[trigger] keys@[q]@ == lowercase(out@[q].0@),
                forall|q: int| 0 <= q < p ==> !text_lt(key@, lowercase(#[trigger] out@[q].0@)),
                done ==> p < out@.len() && text_lt(key@, lowercase(out@[p as int].0@)),
            decreases keys@.len() - p + if done { 0int } else { 1int },
        {
            let ord = compare_text(keys[p].as_str(), key.as_str());
            proof {
                assert(keys@[p as int]@ == lowercase(out@[p as int].0@));
            }
            match ord {
                TextOrder::After => {
                    done = true;
                },
                _ => {
                    proof {
                        lemma_text_lt_total(key@, keys@[p as int]@);
                    }
                    p = p + 1;
                },
            }
        }
        let ghost old_out = out@;
        let ghost old_keys = keys@;
        proof {
            assert forall|q: int| p <= q < old_out.len() implies text_lt(lowercase(e.0@), lowercase(#[trigger] old_out[q].0@)) by {
                let kp = lowercase(old_out[p as int].0@);
                let kq = lowercase(old_out[q].0@);
                if q > p {
                    assert(!text_lt(kq, kp));
                    lemma_text_lt_total(kp, kq);
                    if kp != kq {
                        lemma_text_lt_transitive(key@, kp, kq);
                    }
                }
            }
            assert forall|k: Seq<char>| #[trigger] old_out.insert(p as int, e).filter(named(k)) == seen.push(e).filter(named(k)) by {
                lemma_insert_keeps_groups(old_out, p as int, e, k);
                Seq::filter_distributes_over_add(seen, seq![e], named::<T>(k));
                assert(seen.push(e) =~= seen + seq![e]);
            }
        }
        out.insert(p, e);
        keys.insert(p, key);
        proof {
            let n = out@;
            assert forall|i: int, j: int| #![trigger n[i], n[j]] 0 <= i < j < n.len() implies !text_lt(lowercase(n[j].0@), lowercase(n[i].0@)) by {
                let ke = lowercase(e.0@);
                if i < p && j < p {
                    assert(n[i] == old_out[i] && n[j] == old_out[j]);
                } else if i > p && j > p {
                    assert(n[i] == old_out[i - 1] && n[j] == old_out[j - 1]);
                } else if i < p && j == p {
                    assert(n[i] == old_out[i]);
                } else if i == p {
                    assert(n[j] == old_out[j - 1]);
                    lemma_text_lt_total(ke, lowercase(n[j].0@));
                } else {
                    assert(n[i] == old_out[i] && n[j] == old_out[j - 1]);
                    assert(!text_lt(ke, lowercase(n[i].0@)));
                    lemma_text_lt_total(ke, lowercase(n[j].0@));
                    lemma_text_lt_total(lowercase(n[i].0@), ke);
                    if lowercase(n[i].0@) != ke {
                        lemma_text_lt_transitive(lowercase(n[i].0@), ke, lowercase(n[j].0@));
                    }
                    lemma_text_lt_total(lowercase(n[i].0@), lowercase(n[j].0@));
                }
            }
            assert forall|q: int| 0 <= q < out@.len() implies #[trigger] keys@[q]@ == lowercase(out@[q].0@) by {
                if q > p {
                    assert(keys@[q] == old_keys[q - 1]);
                }
            }
            seen = seen.push(e);
            assert(orig =~= seen + rest@);
        }
    }
    proof {
        assert(seen =~= orig);
    }
    out
}

/// The last position of an entry named `n`.
pub open spec fn last_named<T>(s: Seq<(String, T)>, n: Seq<char>) -> Option<int>
    decreases s.len(),
{
    if s.len() == 0 {
        None
    } else if s.last().0@ == n {
        Some(s.len() - 1)
    } else {
        last_named(s.drop_last(), n)
    }
}

/// Whether `r` holds the entries of `v` in the order of their lower-case
/// names, entries with equal lower-case names in their order in `v`.
pub open spec fn sorted_from<T>(r: Seq<(String, T)>, v: Seq<(String, T)>) -> bool {
    &&& sorted_by_name(r)
    &&& forall|k: Seq<char>| #[trigger] r.filter(named(k)) == v.filter(named(k))
}

impl<T> List<T> {
    /// A list of the given entries sorted by lower-case name, with the
    /// cursor on the first.
    pub fn new(entries: Vec<(String, T)>) -> (r: Self)
        ensures
            sorted_from(r.list@, entries@),
            r.state == Some(0usize),
    {
        List { list: sort_by_name(entries), state: Some(0) }
    }

    /// Replace the entries with the given ones sorted by lower-case name,
    /// the cursor on the first.
    pub fn update(&mut self, entries: Vec<(String, T)>)
        ensures
            sorted_from(final(self).list@, entries@),
            final(self).state == Some(0usize),
    {
        self.state = Some(0);
        self.list = sort_by_name(entries);
    }

    /// Rebuild the list from the given entries, keeping the cursor on an
    /// entry with the name it was on (the last such), else on the first.
    pub fn refresh(&mut self, entries: Vec<(String, T)>)
        requires
            cursor_fits(old(self).state, old(self).list@.len() as int),
        ensures
            sorted_from(final(self).list@, entries@),
            final(self).state == match old(self).state {
                Some(i) => match last_named(final(self).list@, old(self).list@[i as int].0@) {
                    Some(j) => Some(j as usize),
                    None => Some(0usize),
                },
                None => Some(0usize),
            },
    {
        match self.state {
            Some(index) => {
                let name = self.list[index].0.clone();
                *self = Self::new(entries);
                let mut i: usize = 0;
                while i < self.list.len()
                    invariant
                        i <= self.list@.len(),
                        sorted_from(self.list@, entries@),
                        self.state == match last_named(self.list@.take(i as int), name@) {
                            Some(j) => Some(j as usize),
                            None => Some(0usize),
                        },
                    decreases self.list@.len() - i,
                {
                    proof {
                        assert(self.list@.take(i + 1).drop_last() =~= self.list@.take(i as int));
                    }
                    if self.list[i].0 == name {
                        self.state = Some(i);
                    }
                    i = i + 1;
                }
                proof {
                    assert(self.list@.take(self.list@.len() as int) =~= self.list@);
                }
            },
            None => {
                *self = Self::new(entries);
            },
        }
    }
}

} // verus!
