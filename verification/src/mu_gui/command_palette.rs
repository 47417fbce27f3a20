//! The command palette's state: opening and closing, typing, Backspace with
//! key repeat, and moving the highlighted result.
use vstd::prelude::*;
use crate::text::{views, trim, trimmed, trim_end, is_space, is_space_char, lemma_trim_end_take, push_char, lowercase, to_lowercase, contains_text, contains_str};
use crate::mu_core::vdb::{Item, Database, by_artist, album_of};
use crate::mu_core::db::{Song, SongView, song_views, song_paths, find_song_by_path};
use crate::mu_gui::search::{lists_name, copy_songs, find_song, album_songs, is_track};

verus! {

/// Milliseconds Backspace must be held before it repeats.
pub const INITIAL_DELAY_MS: u64 = 400;
/// Milliseconds between repeated deletions while Backspace is held.
pub const REPEAT_MS: u64 = 40;

/// The palette: whether it is open, what was typed, the highlighted result,
/// whether the results need recomputing, and when Backspace went down and
/// last deleted (milliseconds on the window's clock).
#[derive(Debug)]
pub struct CommandPalette {
    pub open: bool,
    pub query: String,
    pub selected: usize,
    pub dirty: bool,
    pub backspace_held_since: Option<u64>,
    pub backspace_last_tick: Option<u64>,
}

/// Whether `c` is a control character (Unicode category Cc), as
/// `char::is_control` tells.
pub open spec fn is_control(c: char) -> bool {
    (c as u32) <= 0x1f || (0x7f <= (c as u32) && (c as u32) <= 0x9f)
}

/// The characters of `chars` that are not control characters.
pub open spec fn printable(chars: Seq<char>) -> Seq<char> {
    chars.filter(|c: char| !is_control(c))
}

/// The text left after deleting the last word: trailing white space goes,
/// then everything after the last space; all of it if there is no space.
pub open spec fn without_last_word(q: Seq<char>) -> Seq<char> {
    let t = trim_end(q);
    match t.index_of_last(' ') {
        Some(i) => t.take(i + 1),
        None => Seq::<char>::empty(),
    }
}

/// The query after one deletion: all of it with Shift and Ctrl, the last
/// word with Ctrl, else the last character.
pub open spec fn after_backspace(q: Seq<char>, shift: bool, control: bool) -> Seq<char> {
    if shift && control {
        Seq::<char>::empty()
    } else if control {
        without_last_word(q)
    } else {
        q.drop_last()
    }
}

/// Whether `c` is a control character.
pub fn is_control_char(c: char) -> (r: bool)
    ensures
        r == is_control(c),
{
    let v = c as u32;
    v <= 0x1f || (0x7f <= v && v <= 0x9f)
}

/// `s` without white space at its end.
pub fn trim_end_str(s: &str) -> (r: &str)
    ensures
        r@ == trim_end(s@),
{
    let n = s.unicode_len();
    let mut b: usize = n;
    while b > 0 && is_space_char(s.get_char(b - 1))
        invariant
            n == s@.len(),
            b <= n,
            forall|i: int| b <= i < n ==> is_space(#[trigger] s@[i]),
        decreases b,
    {
        b = b - 1;
    }
    proof {
        lemma_trim_end_take(s@, b as int);
    }
    s.substring_char(0, b)
}

impl CommandPalette {
    /// A closed palette.
    pub fn new() -> (r: Self)
        ensures
            !r.open,
            r.query@.len() == 0,
            r.selected == 0,
            !r.dirty,
            r.backspace_held_since is None,
            r.backspace_last_tick is None,
    {
        CommandPalette {
            open: false,
            query: String::new(),
            selected: 0,
            dirty: false,
            backspace_held_since: None,
            backspace_last_tick: None,
        }
    }

    /// Open in command mode: the query is `>`.
    pub fn open_commands(&mut self)
        ensures
            final(self).open,
            final(self).query@ == seq!['>'],
            final(self).selected == 0,
            final(self).dirty,
            final(self).backspace_held_since is None,
            final(self).backspace_last_tick is None,
    {
        self.open = true;
        let mut q = String::new();
        push_char(&mut q, '>');
        self.query = q;
        self.selected = 0;
        self.dirty = true;
        self.backspace_held_since = None;
        self.backspace_last_tick = None;
    }

    /// Open in search mode: the query is empty.
    pub fn open_search(&mut self)
        ensures
            final(self).open,
            final(self).query@.len() == 0,
            final(self).selected == 0,
            final(self).dirty,
            final(self).backspace_held_since is None,
            final(self).backspace_last_tick is None,
    {
        self.open = true;
        self.query = String::new();
        self.selected = 0;
        self.dirty = true;
        self.backspace_held_since = None;
        self.backspace_last_tick = None;
    }

    /// Close and forget the query.
    pub fn close(&mut self)
        ensures
            !final(self).open,
            final(self).query@.len() == 0,
            final(self).selected == 0,
            !final(self).dirty,
            final(self).backspace_held_since is None,
            final(self).backspace_last_tick is None,
    {
        self.open = false;
        self.query = String::new();
        self.selected = 0;
        self.dirty = false;
        self.backspace_held_since = None;
        self.backspace_last_tick = None;
    }

    /// Whether the query asks for commands: it begins with `>`.
    pub fn is_command_mode(&self) -> (r: bool)
        ensures
            r == (self.query@.len() > 0 && self.query@[0] == '>'),
    {
        self.query.unicode_len() > 0 && self.query.as_str().get_char(0) == '>'
    }
}

/// The remainder of a negative number: `m` less that of its opposite,
/// unless that is 0.
proof fn lemma_negative_mod(s: int, m: int, k: int)
    requires
        s < 0,
        m > 0,
        k == (0 - s) % m,
    ensures
        s % m == if k == 0 { 0 } else { m - k },
{
    let q = (0 - s) / m;
    assert(0 - s == q * m + k) by (nonlinear_arith)
        requires
            m > 0,
            q == (0 - s) / m,
            k == (0 - s) % m,
    ;
    if k == 0 {
        assert(s == (0 - q) * m) by (nonlinear_arith)
            requires
                0 - s == q * m + k,
                k == 0,
        ;
        assert(s % m == 0) by (nonlinear_arith)
            requires
                m > 0,
                s == (0 - q) * m,
        ;
    } else {
        assert(s == (0 - q - 1) * m + (m - k)) by (nonlinear_arith)
            requires
                0 - s == q * m + k,
        ;
        assert(0 <= m - k < m);
        assert(s % m == m - k) by (nonlinear_arith)
            requires
                m > 0,
                s == (0 - q - 1) * m + (m - k),
                0 <= m - k < m,
        ;
    }
}

/// Move the highlight by `delta` through `len` results, wrapping around at
/// both ends; with no results it goes to the top.
pub fn move_selection(palette: &mut CommandPalette, len: usize, delta: i32)
    requires
        old(palette).selected <= i32::MAX,
        len <= i32::MAX,
        i32::MIN <= old(palette).selected + delta <= i32::MAX,
    ensures
        len == 0 ==> final(palette).selected == 0,
        len > 0 ==> final(palette).selected == (old(palette).selected + delta) % (len as int),
        final(palette).query == old(palette).query,
        final(palette).open == old(palette).open,
        final(palette).dirty == old(palette).dirty,
{
    if len == 0 {
        palette.selected = 0;
        return;
    }
    let cur = palette.selected as i64;
    let m = len as u64;
    let sum = cur + delta as i64;
    let next: u64 = if sum >= 0 {
        (sum as u64) % m
    } else {
        let k = ((0 - sum) as u64) % m;
        proof {
            lemma_negative_mod(sum as int, m as int, k as int);
        }
        if k == 0 { 0 } else { m - k }
    };
    palette.selected = next as usize;
}

/// Type the characters that are not control characters; typing anything
/// marks the results for recomputing and moves the highlight to the top.
pub fn on_text_input(palette: &mut CommandPalette, chars: &[char])
    ensures
        final(palette).query@ == old(palette).query@ + printable(chars@),
        printable(chars@).len() > 0 ==> final(palette).dirty && final(palette).selected == 0,
        printable(chars@).len() == 0 ==> final(palette).dirty == old(palette).dirty && final(palette).selected
            == old(palette).selected,
        final(palette).open == old(palette).open,
{
    let mut i: usize = 0;
    while i < chars.len()
        invariant
            i <= chars.len(),
            palette.query@ == old(palette).query@ + printable(chars@.take(i as int)),
            printable(chars@.take(i as int)).len() > 0 ==> palette.dirty && palette.selected == 0,
            printable(chars@.take(i as int)).len() == 0 ==> palette.dirty == old(palette).dirty
                && palette.selected == old(palette).selected,
            palette.open == old(palette).open,
        decreases chars.len() - i,
    {
        let c = chars[i];
        proof {
            assert(chars@.take(i + 1) =~= chars@.take(i as int).push(c));
            reveal_with_fuel(Seq::filter, 2);
            assert(chars@.take(i + 1).drop_last() =~= chars@.take(i as int));
        }
        if !is_control_char(c) {
            push_char(&mut palette.query, c);
            palette.dirty = true;
            palette.selected = 0;
            proof {
                assert(palette.query@ =~= old(palette).query@ + printable(chars@.take(i + 1)));
            }
        }
        i = i + 1;
    }
    proof {
        assert(chars@.take(chars.len() as int) =~= chars@);
    }
}

/// Milliseconds from `t` to `now`, 0 if `t` is later.
pub open spec fn elapsed(now: u64, t: u64) -> int {
    if now >= t { now - t } else { 0 }
}

/// How holding Backspace goes on: the new time it went down, the new time
/// of the last deletion, and whether to delete now. A fresh press deletes
/// at once; a held key deletes again once it has been down for the initial
/// delay, then every repeat interval.
pub open spec fn repeat_step(held: Option<u64>, last: Option<u64>, edge: bool, now: u64) -> (Option<u64>, Option<u64>, bool) {
    if edge {
        (Some(now), Some(now), true)
    } else {
        match held {
            Some(h) => if elapsed(now, h) < INITIAL_DELAY_MS {
                (held, last, false)
            } else {
                let l = match last {
                    Some(l) => l,
                    None => h,
                };
                if elapsed(now, l) >= REPEAT_MS {
                    (held, Some(now), true)
                } else {
                    (held, last, false)
                }
            },
            None => (Some(now), Some(now), true),
        }
    }
}

/// The query without its last word.
fn delete_last_word(q: &str) -> (r: String)
    ensures
        r@ == without_last_word(q@),
{
    let t = trim_end_str(q);
    let n = t.unicode_len();
    let mut i: usize = n;
    while i > 0 && t.get_char(i - 1) != ' '
        invariant
            n == t@.len(),
            i <= n,
            forall|j: int| i <= j < n ==> t@[j] != ' ',
        decreases i,
    {
        i = i - 1;
    }
    proof {
        t@.index_of_last_ensures(' ');
    }
    if i == 0 {
        proof {
            if t@.contains(' ') {
                let k = choose|k: int| 0 <= k < t@.len() && t@[k] == ' ';
                assert(t@[k] != ' ');
            }
        }
        String::new()
    } else {
        proof {
            assert(t@[i - 1] == ' ');
            assert(t@.contains(' '));
            let k = t@.index_of_last(' ').unwrap();
            assert(k == i - 1);
        }
        t.substring_char(0, i).to_owned()
    }
}

/// Backspace on the palette: `down` tells whether the key is held, `edge`
/// whether it went down this frame, `now` the time in milliseconds. Letting
/// go forgets the timing; a deletion (see `repeat_step`) takes the last
/// character, the last word with Ctrl, or everything with Ctrl and Shift,
/// and marks the results for recomputing with the highlight at the top. An
/// empty query is left alone.
pub fn on_backspace(palette: &mut CommandPalette, down: bool, edge: bool, control: bool, shift: bool, now: u64)
    ensures
        !down ==> {
            &&& final(palette).backspace_held_since is None
            &&& final(palette).backspace_last_tick is None
            &&& final(palette).query == old(palette).query
            &&& final(palette).dirty == old(palette).dirty
            &&& final(palette).selected == old(palette).selected
        },
        down ==> {
            let (held, last, delete) = repeat_step(
                old(palette).backspace_held_since,
                old(palette).backspace_last_tick,
                edge,
                now,
            );
            &&& final(palette).backspace_held_since == held
            &&& final(palette).backspace_last_tick == last
            &&& delete && old(palette).query@.len() > 0 ==> {
                &&& final(palette).query@ == after_backspace(old(palette).query@, shift, control)
                &&& final(palette).dirty
                &&& final(palette).selected == 0
            }
            &&& !(delete && old(palette).query@.len() > 0) ==> {
                &&& final(palette).query == old(palette).query
                &&& final(palette).dirty == old(palette).dirty
                &&& final(palette).selected == old(palette).selected
            }
        },
        final(palette).open == old(palette).open,
{
    if !down {
        palette.backspace_held_since = None;
        palette.backspace_last_tick = None;
        return;
    }
    let should_delete = if edge {
        palette.backspace_held_since = Some(now);
        palette.backspace_last_tick = Some(now);
        true
    } else {
        match palette.backspace_held_since {
            Some(held_since) => {
                let held_for = if now >= held_since { now - held_since } else { 0 };
                if held_for < INITIAL_DELAY_MS {
                    false
                } else {
                    let last = match palette.backspace_last_tick {
                        Some(l) => l,
                        None => held_since,
                    };
                    let since_last = if now >= last { now - last } else { 0 };
                    if since_last >= REPEAT_MS {
                        palette.backspace_last_tick = Some(now);
                        true
                    } else {
                        false
                    }
                }
            },
            None => {
                palette.backspace_held_since = Some(now);
                palette.backspace_last_tick = Some(now);
                true
            },
        }
    };
    let n = palette.query.unicode_len();
    if !should_delete || n == 0 {
        return;
    }
    if shift && control {
        palette.query = String::new();
    } else if control {
        palette.query = delete_last_word(palette.query.as_str());
    } else {
        let kept = palette.query.as_str().substring_char(0, n - 1).to_owned();
        palette.query = kept;
    }
    palette.dirty = true;
    palette.selected = 0;
}

/// A command the palette offers.
#[derive(Debug, Clone, Copy, PartialEq, Eq, Structural)]
pub enum CommandId {
    RescanDatabase,
}

/// A command with its label, a line of detail and the lower-case words it
/// is found by.
#[derive(Debug)]
pub struct CommandDef {
    pub id: CommandId,
    pub label: String,
    pub detail: String,
    pub keywords: Vec<String>,
}

/// A row of the palette's results.
#[derive(Debug)]
pub enum Entry {
    Command(CommandId, String, String),
    Song(Item),
    Artist(String),
    Album(String, String),
}

/// Whether a command is listed for the command filter `filter`: an empty
/// filter lists everything; else the filter must occur in the lower-case
/// label, or a keyword must occur in the filter or the filter in it.
pub open spec fn command_matches(filter: Seq<char>, label: Seq<char>, keywords: Seq<Seq<char>>) -> bool {
    ||| filter.len() == 0
    ||| contains_text(lowercase(label), filter)
    ||| exists|k: int| 0 <= k < keywords.len() && (contains_text(#[trigger] keywords[k], filter) || contains_text(filter, keywords[k]))
}

/// The palette's commands.
pub fn commands() -> (r: Vec<CommandDef>)
    ensures
        r@.len() == 1,
        r@[0].id == CommandId::RescanDatabase,
        r@[0].label@ == "Rescan Database"@,
        r@[0].detail@ == "Refresh the music library from disk"@,
        views(r@[0].keywords@) == seq![
            "rescan"@,
            "refresh"@,
            "scan"@,
            "update"@,
            "library"@,
            "database"@,
            "reload"@,
        ],
{
    let mut keywords: Vec<String> = Vec::new();
    keywords.push("rescan".to_owned());
    keywords.push("refresh".to_owned());
    keywords.push("scan".to_owned());
    keywords.push("update".to_owned());
    keywords.push("library".to_owned());
    keywords.push("database".to_owned());
    keywords.push("reload".to_owned());
    let mut r: Vec<CommandDef> = Vec::new();
    r.push(
        CommandDef {
            id: CommandId::RescanDatabase,
            label: "Rescan Database".to_owned(),
            detail: "Refresh the music library from disk".to_owned(),
            keywords,
        },
    );
    proof {
        assert(views(r@[0].keywords@) =~= seq![
            "rescan"@,
            "refresh"@,
            "scan"@,
            "update"@,
            "library"@,
            "database"@,
            "reload"@,
        ]);
    }
    r
}

/// The filter of a command-mode query: what follows the `>`, without
/// surrounding white space, in lower case.
pub fn command_filter(query: &str) -> (r: String)
    requires
        query@.len() > 0,
        query@[0] == '>',
    ensures
        r@ == lowercase(trimmed(query@.skip(1))),
{
    let n = query.unicode_len();
    let rest = query.substring_char(1, n);
    proof {
        assert(rest@ =~= query@.skip(1));
    }
    to_lowercase(trim(rest))
}

/// Whether command `c` is listed for the filter.
fn command_listed(c: &CommandDef, filter: &str) -> (r: bool)
    ensures
        r == command_matches(filter@, c.label@, views(c.keywords@)),
{
    if filter.unicode_len() == 0 {
        return true;
    }
    let label = to_lowercase(c.label.as_str());
    if contains_str(label.as_str(), filter) {
        return true;
    }
    let ghost ks = views(c.keywords@);
    let mut k: usize = 0;
    while k < c.keywords.len()
        invariant
            ks == views(c.keywords@),
            k <= c.keywords.len(),
            filter@.len() > 0,
            !contains_text(lowercase(c.label@), filter@),
            forall|j: int| 0 <= j < k ==> !(contains_text(#[trigger] ks[j], filter@) || contains_text(filter@, ks[j])),
        decreases c.keywords.len() - k,
    {
        let word = c.keywords[k].as_str();
        if contains_str(word, filter) || contains_str(filter, word) {
            proof {
                assert(ks[k as int] == word@);
            }
            return true;
        }
        k = k + 1;
    }
    false
}

/// Whether `needle` stands in `hay` starting at position `j`.
pub open spec fn occurs_at(hay: Seq<char>, needle: Seq<char>, j: int) -> bool {
    0 <= j && j + needle.len() <= hay.len() && hay.subrange(j, j + needle.len()) == needle
}

/// A command is listed exactly when the filter is empty, or stands
/// somewhere in the lower-case label, or stands somewhere in one of the
/// keywords, or one of the keywords stands somewhere in the filter. In
/// particular every piece of a keyword, such as a prefix typed so far,
/// lists the command.
pub proof fn lemma_command_listing(filter: Seq<char>, label: Seq<char>, keywords: Seq<Seq<char>>)
    ensures
        command_matches(filter, label, keywords) <==> {
            ||| filter.len() == 0
            ||| exists|j: int| occurs_at(lowercase(label), filter, j)
            ||| exists|k: int, j: int| 0 <= k < keywords.len() && #[trigger] occurs_at(keywords[k], filter, j)
            ||| exists|k: int, j: int| 0 <= k < keywords.len() && #[trigger] occurs_at(filter, keywords[k], j)
        },
        forall|k: int, j: int| 0 <= k < keywords.len() && #[trigger] occurs_at(keywords[k], filter, j)
            ==> command_matches(filter, label, keywords),
        forall|k: int, n: int|
            0 <= k < keywords.len() && 0 < n <= keywords[k].len() && filter == #[trigger] keywords[k].subrange(0, n)
            ==> command_matches(filter, label, keywords),
{
    assert forall|k: int, j: int| 0 <= k < keywords.len() && #[trigger] occurs_at(keywords[k], filter, j) implies command_matches(
        filter,
        label,
        keywords,
    ) by {
        assert(contains_text(keywords[k], filter));
    }
    assert forall|k: int, n: int|
        0 <= k < keywords.len() && 0 < n <= keywords[k].len() && filter == #[trigger] keywords[k].subrange(0, n)
        implies command_matches(filter, label, keywords) by {
        assert(occurs_at(keywords[k], filter, 0));
        assert(contains_text(keywords[k], filter));
    }
    if exists|j: int| occurs_at(lowercase(label), filter, j) {
        let j = choose|j: int| occurs_at(lowercase(label), filter, j);
        assert(contains_text(lowercase(label), filter));
    }
    if exists|k: int, j: int| 0 <= k < keywords.len() && #[trigger] occurs_at(filter, keywords[k], j) {
        let (k, j) = choose|k: int, j: int| 0 <= k < keywords.len() && #[trigger] occurs_at(filter, keywords[k], j);
        assert(contains_text(filter, keywords[k]));
    }
    if command_matches(filter, label, keywords) && filter.len() > 0 {
        if contains_text(lowercase(label), filter) {
            let j = choose|j: int| 0 <= j && j + filter.len() <= lowercase(label).len() && #[trigger] lowercase(label).subrange(j, j + filter.len()) == filter;
            assert(occurs_at(lowercase(label), filter, j));
        } else {
            let k = choose|k: int| 0 <= k < keywords.len() && (contains_text(#[trigger] keywords[k], filter) || contains_text(filter, keywords[k]));
            if contains_text(keywords[k], filter) {
                let j = choose|j: int| 0 <= j && j + filter.len() <= keywords[k].len() && #[trigger] keywords[k].subrange(j, j + filter.len()) == filter;
                assert(occurs_at(keywords[k], filter, j));
            } else {
                let j = choose|j: int| 0 <= j && j + keywords[k].len() <= filter.len() && #[trigger] filter.subrange(j, j + keywords[k].len()) == keywords[k];
                assert(occurs_at(filter, keywords[k], j));
            }
        }
    }
}

/// Whether a command-mode query lists the rescan command.
pub open spec fn rescan_listed(query: Seq<char>) -> bool {
    command_matches(
        lowercase(trimmed(query.skip(1))),
        "Rescan Database"@,
        seq!["rescan"@, "refresh"@, "scan"@, "update"@, "library"@, "database"@, "reload"@],
    )
}

/// The rows a command-mode query lists: the rescan command, with its
/// label and detail, when its filter matches it, else nothing.
pub open spec fn command_rows(query: Seq<char>, r: Seq<Entry>) -> bool {
    if rescan_listed(query) {
        &&& r.len() == 1
        &&& r[0] matches Entry::Command(id, label, detail) && id == CommandId::RescanDatabase && label@
            == "Rescan Database"@ && detail@ == "Refresh the music library from disk"@
    } else {
        r.len() == 0
    }
}

/// The command rows for a command-mode query: the commands listed for its
/// filter, in order, with their labels and details.
pub fn command_entries(query: &str) -> (r: Vec<Entry>)
    requires
        query@.len() > 0,
        query@[0] == '>',
    ensures
        command_rows(query@, r@),
{
    let filter = command_filter(query);
    let defs = commands();
    let out = listed_commands(defs.as_slice(), filter.as_str());
    proof {
        reveal_with_fuel(Seq::filter, 2);
        assert(defs@ =~= seq![defs@[0]]);
        assert(seq![defs@[0]].drop_last() =~= Seq::<CommandDef>::empty());
    }
    out
}

/// Whether command `c` is listed for `filter`.
pub open spec fn is_listed(filter: Seq<char>) -> spec_fn(CommandDef) -> bool {
    |c: CommandDef| command_matches(filter, c.label@, views(c.keywords@))
}

/// The rows of the commands of `defs` listed for `filter`, in order.
pub fn listed_commands(defs: &[CommandDef], filter: &str) -> (r: Vec<Entry>)
    ensures
        ({
            let kept = defs@.filter(is_listed(filter@));
            &&& r@.len() == kept.len()
            &&& forall|i: int| 0 <= i < kept.len() ==> (#[trigger] r@[i] matches Entry::Command(id, label, detail)
                && id == kept[i].id && label@ == kept[i].label@ && detail@ == kept[i].detail@)
        }),
{
    let ghost p = is_listed(filter@);
    let mut out: Vec<Entry> = Vec::new();
    let mut i: usize = 0;
    while i < defs.len()
        invariant
            p == is_listed(filter@),
            i <= defs.len(),
            out@.len() == defs@.take(i as int).filter(p).len(),
            forall|k: int| 0 <= k < out@.len() ==> (#[trigger] out@[k] matches Entry::Command(id, label, detail)
                && id == defs@.take(i as int).filter(p)[k].id && label@ == defs@.take(i as int).filter(p)[k].label@
                && detail@ == defs@.take(i as int).filter(p)[k].detail@),
        decreases defs.len() - i,
    {
        let c = &defs[i];
        proof {
            reveal_with_fuel(Seq::filter, 2);
            assert(defs@.take(i + 1).drop_last() =~= defs@.take(i as int));
            assert(defs@.take(i + 1).last() == defs@[i as int]);
        }
        if command_listed(c, filter) {
            let ghost before = out@;
            out.push(Entry::Command(c.id, c.label.clone(), c.detail.clone()));
            proof {
                assert(defs@.take(i + 1).filter(p) =~= defs@.take(i as int).filter(p).push(*c));
                assert forall|k: int| 0 <= k < out@.len() implies (#[trigger] out@[k] matches Entry::Command(id, label, detail)
                    && id == defs@.take(i + 1).filter(p)[k].id && label@ == defs@.take(i + 1).filter(p)[k].label@
                    && detail@ == defs@.take(i + 1).filter(p)[k].detail@) by {
                    if k < before.len() {
                        assert(out@[k] == before[k]);
                    }
                }
            }
        } else {
            proof {
                assert(defs@.take(i + 1).filter(p) =~= defs@.take(i as int).filter(p));
            }
        }
        i = i + 1;
    }
    proof {
        assert(defs@.take(defs.len() as int) =~= defs@);
    }
    out
}

/// What choosing a palette row asks of the window.
#[derive(Debug)]
pub enum Action {
    RescanDatabase,
    /// Start playback and append tracks to the explicit queue.
    PlayAndQueue { play: Vec<Song>, play_index: usize, queue_add: Vec<Song> },
    OpenArtist(String),
    Close,
}

/// Where in `play` to start for the song at `path`: its first position, or
/// the top.
pub open spec fn start_position(play: Seq<Song>, path: Seq<char>) -> int {
    match song_paths(play).index_of_first(path) {
        Some(i) => i,
        None => 0,
    }
}

/// The position of the first song of the database that is track `num` of
/// disc `disc` of `album` by `artist`.
pub open spec fn first_track(s: Seq<SongView>, artist: Seq<char>, album: Seq<char>, disc: u8, num: u8) -> int {
    choose|i: int|
        0 <= i < s.len() && is_track(s[i], artist, album, disc, num) && forall|j: int|
            0 <= j < i ==> !is_track(#[trigger] s[j], artist, album, disc, num)
}

/// Whether the database has such a track.
pub open spec fn has_track(s: Seq<SongView>, artist: Seq<char>, album: Seq<char>, disc: u8, num: u8) -> bool {
    exists|i: int| 0 <= i < s.len() && #[trigger] is_track(s[i], artist, album, disc, num)
}

/// The whole discography of `artist`, to be played from the song at
/// `path` (from the top if it is not there); nothing unless `artists`
/// lists the artist.
pub fn discography_from(db: &Database, artists: &[String], artist: &str, path: &str) -> (r: (Vec<Song>, usize))
    requires
        db.well_formed(),
    ensures
        !views(artists@).contains(artist@) ==> r.0@.len() == 0 && r.1 == 0,
        views(artists@).contains(artist@) ==> {
            &&& song_views(r.0@) == db.song_list().filter(by_artist(artist@))
            &&& r.1 == start_position(r.0@, path@)
        },
{
    if !lists_name(artists, artist) {
        return (Vec::new(), 0);
    }
    let play = match db.get_artist_songs(artist) {
        Some(songs) => copy_songs(songs),
        None => Vec::new(),
    };
    let target = path.to_owned();
    let play_index = match find_song_by_path(play.as_slice(), &target) {
        Some(i) => i,
        None => 0,
    };
    (play, play_index)
}

/// What activating `entry` gives: the rescan for a command; for a song,
/// its artist's page with shift, else (when the song is in the library)
/// the artist's discography played from it with the song queued; for an
/// artist or an album, the artist's page with shift or when there is
/// nothing to play, else their songs played (from the album's first song
/// for an album) with the artist's or the album's songs queued.
pub open spec fn activated(entry: Entry, db: &Database, artists: Seq<String>, shift: bool, r: Option<Action>) -> bool {
    match entry {
        Entry::Command(_, _, _) => r matches Some(Action::RescanDatabase),
        Entry::Song(item) => match item {
            Item::Song((artist, album, _, disc, num)) => if shift {
                r matches Some(Action::OpenArtist(n)) && n@ == artist@
            } else if !views(artists).contains(artist@) || !has_track(db.song_list(), artist@, album@, disc, num) {
                r is None
            } else {
                let i = first_track(db.song_list(), artist@, album@, disc, num);
                r matches Some(Action::PlayAndQueue { play, play_index, queue_add }) && queue_add@ == seq![
                    db.songs@[i],
                ] && song_views(play@) == db.song_list().filter(by_artist(artist@)) && play_index == start_position(
                    play@,
                    db.songs@[i].path@,
                )
            },
            _ => r is None,
        },
        Entry::Artist(name) => if shift {
            r matches Some(Action::OpenArtist(n)) && n@ == name@
        } else if !views(artists).contains(name@) || db.song_list().filter(by_artist(name@)).len() == 0 {
            r matches Some(Action::OpenArtist(n)) && n@ == name@
        } else {
            r matches Some(Action::PlayAndQueue { play, play_index, queue_add }) && song_views(play@)
                == db.song_list().filter(by_artist(name@)) && play_index == 0 && queue_add@ == play@
        },
        Entry::Album(artist, album) => if shift {
            r matches Some(Action::OpenArtist(n)) && n@ == artist@
        } else if !views(artists).contains(artist@) || db.song_list().filter(album_of(artist@, album@)).len() == 0 {
            r matches Some(Action::OpenArtist(n)) && n@ == artist@
        } else {
            r matches Some(Action::PlayAndQueue { play, play_index, queue_add }) && song_views(queue_add@)
                == db.song_list().filter(album_of(artist@, album@)) && song_views(play@) == db.song_list().filter(
                by_artist(artist@),
            ) && play_index == start_position(play@, queue_add@[0].path@)
        },
    }
}

/// What choosing a palette row does. A command runs. A song plays its
/// artist's discography from that song and joins the queue; an artist plays
/// and queues all of the artist's songs; an album queues its songs and
/// plays the artist's discography from the album's first song. With Shift,
/// or where there is nothing to play, the artist's page opens instead; a
/// song that cannot be found does nothing.
pub fn activate_entry(entry: &Entry, db: &Database, artists: &[String], shift: bool) -> (r: Option<Action>)
    requires
        db.well_formed(),
    ensures
        activated(*entry, db, artists@, shift, r),
{
    match entry {
        Entry::Command(CommandId::RescanDatabase, _, _) => Some(Action::RescanDatabase),
        Entry::Song(Item::Song((artist, album, _, disc, num))) => {
            if shift {
                return Some(Action::OpenArtist(artist.clone()));
            }
            let song = match find_song(db, artists, artist.as_str(), album.as_str(), *disc, *num) {
                Some(song) => song,
                None => return None,
            };
            proof {
                let s = db.song_list();
                let i = choose|i: int|
                    0 <= i < db.songs.len() && song == db.songs@[i] && is_track(#[trigger] s[i], artist@, album@, *disc, *num)
                        && forall|j: int| 0 <= j < i ==> !is_track(#[trigger] s[j], artist@, album@, *disc, *num);
                assert(has_track(s, artist@, album@, *disc, *num));
                let f = first_track(s, artist@, album@, *disc, *num);
                if f < i {
                    assert(!is_track(s[f], artist@, album@, *disc, *num));
                }
                if i < f {
                    assert(!is_track(s[i], artist@, album@, *disc, *num));
                }
            }
            let (play, play_index) = discography_from(db, artists, artist.as_str(), song.path.as_str());
            let mut queue_add: Vec<Song> = Vec::new();
            queue_add.push(song);
            Some(Action::PlayAndQueue { play, play_index, queue_add })
        },
        Entry::Song(_) => None,
        Entry::Artist(name) => {
            if shift {
                return Some(Action::OpenArtist(name.clone()));
            }
            let play = if lists_name(artists, name.as_str()) {
                match db.get_artist_songs(name.as_str()) {
                    Some(songs) => copy_songs(songs),
                    None => Vec::new(),
                }
            } else {
                Vec::new()
            };
            if play.len() == 0 {
                Some(Action::OpenArtist(name.clone()))
            } else {
                let queue_add = copy_songs(play.as_slice());
                Some(Action::PlayAndQueue { queue_add, play, play_index: 0 })
            }
        },
        Entry::Album(artist, album) => {
            if shift {
                return Some(Action::OpenArtist(artist.clone()));
            }
            let queue_add = album_songs(db, artists, artist.as_str(), album.as_str());
            if queue_add.len() == 0 {
                return Some(Action::OpenArtist(artist.clone()));
            }
            let start_path = queue_add[0].path.clone();
            let (play, play_index) = discography_from(db, artists, artist.as_str(), start_path.as_str());
            Some(Action::PlayAndQueue { play, play_index, queue_add })
        },
    }
}

/// The most search results the palette lists.
pub const MAX_RESULTS: usize = 40;

/// The palette row of a search result.
pub open spec fn entry_of(item: Item) -> Entry {
    match item {
        Item::Song(_) => Entry::Song(item),
        Item::Artist(name) => Entry::Artist(name),
        Item::Album((artist, album)) => Entry::Album(artist, album),
    }
}

fn entry_from(item: Item) -> (r: Entry)
    ensures
        r == entry_of(item),
{
    match item {
        Item::Song(x) => Entry::Song(Item::Song(x)),
        Item::Artist(name) => Entry::Artist(name),
        Item::Album((artist, album)) => Entry::Album(artist, album),
    }
}

/// Whether the palette's query starts with `>`.
pub open spec fn in_command_mode(query: Seq<char>) -> bool {
    query.len() > 0 && query[0] == '>'
}

/// The number of search results listed.
pub open spec fn listed_count(results: Seq<Item>) -> int {
    if results.len() < MAX_RESULTS { results.len() as int } else { MAX_RESULTS as int }
}

/// The rows the palette lists. In command mode, the commands its filter
/// lists. Otherwise nothing for a blank query, else the first
/// `MAX_RESULTS` of `results`, the search results ranked for the trimmed
/// query, as rows.
pub fn build_entries(palette: &CommandPalette, results: Vec<Item>) -> (r: Vec<Entry>)
    ensures
        in_command_mode(palette.query@) ==> command_rows(palette.query@, r@),
        !in_command_mode(palette.query@) && trimmed(palette.query@).len() == 0 ==> r@.len() == 0,
        !in_command_mode(palette.query@) && trimmed(palette.query@).len() > 0 ==> r@ == results@.take(
            listed_count(results@),
        ).map_values(|x: Item| entry_of(x)),
{
    if palette.is_command_mode() {
        return command_entries(palette.query.as_str());
    }
    let q = trim(palette.query.as_str());
    if q.unicode_len() == 0 {
        return Vec::new();
    }
    let ghost all = results@;
    let n = if results.len() < MAX_RESULTS { results.len() } else { MAX_RESULTS };
    let mut rest = results;
    let mut out: Vec<Entry> = Vec::new();
    while out.len() < n
        invariant
            n == listed_count(all),
            n <= all.len(),
            out@.len() <= n,
            rest@ == all.skip(out@.len() as int),
            out@ == all.take(out@.len() as int).map_values(|x: Item| entry_of(x)),
        decreases n - out@.len(),
    {
        let ghost k = out@.len() as int;
        let item = rest.remove(0);
        proof {
            assert(item == all[k]);
            assert(rest@ =~= all.skip(k + 1));
            assert(all.take(k + 1).map_values(|x: Item| entry_of(x)) =~= all.take(k).map_values(|x: Item| entry_of(x)).push(
                entry_of(all[k]),
            ));
        }
        out.push(entry_from(item));
    }
    out
}

/// Activate the selected palette row, where `results` are the search
/// results ranked for the trimmed query. In command mode that is the
/// rescan when it is listed and selected; otherwise, for a query that is
/// not blank and a selection among the listed results, what activating
/// that result gives; else nothing.
pub fn try_activate(palette: &CommandPalette, results: Vec<Item>, db: &Database, artists: &[String], shift: bool) -> (r: Option<Action>)
    requires
        db.well_formed(),
    ensures
        in_command_mode(palette.query@) ==> if rescan_listed(palette.query@) && palette.selected == 0 {
            r matches Some(Action::RescanDatabase)
        } else {
            r is None
        },
        !in_command_mode(palette.query@) ==> if trimmed(palette.query@).len() > 0 && palette.selected < listed_count(results@) {
            activated(entry_of(results@[palette.selected as int]), db, artists@, shift, r)
        } else {
            r is None
        },
{
    let ghost all = results@;
    let entries = build_entries(palette, results);
    if palette.selected < entries.len() {
        proof {
            if !in_command_mode(palette.query@) {
                assert(entries@[palette.selected as int] == entry_of(all[palette.selected as int]));
            }
        }
        activate_entry(&entries[palette.selected], db, artists, shift)
    } else {
        None
    }
}


/// Text joined with a middle dot between spaces.
pub open spec fn dotted(a: Seq<char>, b: Seq<char>) -> Seq<char> {
    a + seq![' ', ' ', '\u{b7}', ' ', ' '] + b
}

/// `a`, a middle dot between spaces, and `b`.
fn join_dotted(a: &str, b: &str) -> (r: String)
    ensures
        r@ == dotted(a@, b@),
{
    let mut out = a.to_owned();
    push_char(&mut out, ' ');
    push_char(&mut out, ' ');
    push_char(&mut out, '\u{b7}');
    push_char(&mut out, ' ');
    push_char(&mut out, ' ');
    out.append(b);
    proof {
        assert(out@ =~= dotted(a@, b@));
    }
    out
}

/// The title and the subtitle a row shows.
pub fn entry_labels(entry: &Entry) -> (r: (String, String))
    ensures
        match *entry {
            Entry::Command(_, label, detail) => r.0@ == label@ && r.1@ == detail@,
            Entry::Song(item) => match item {
                Item::Song((artist, album, title, _, _)) => r.0@ == title@ && r.1@ == dotted(artist@, album@),
                _ => r.0@ == "Song"@ && r.1@.len() == 0,
            },
            Entry::Artist(name) => r.0@ == name@ && r.1@ == "Artist"@,
            Entry::Album(artist, album) => r.0@ == album@ && r.1@ == dotted(artist@, "Album"@),
        },
{
    match entry {
        Entry::Command(_, label, detail) => (label.clone(), detail.clone()),
        Entry::Song(Item::Song((artist, album, title, _, _))) => (title.clone(), join_dotted(artist.as_str(), album.as_str())),
        Entry::Song(_) => ("Song".to_owned(), String::new()),
        Entry::Artist(name) => (name.clone(), "Artist".to_owned()),
        Entry::Album(artist, album) => (album.clone(), join_dotted(artist.as_str(), "Album")),
    }
}

/// Backspace takes back what typing one printable character added: the
/// query comes back as it was.
pub proof fn lemma_backspace_undoes_typing(q: Seq<char>, c: char)
    requires
        !is_control(c),
    ensures
        after_backspace(q + printable(seq![c]), false, false) == q,
{
    reveal_with_fuel(Seq::filter, 2);
    assert(seq![c].drop_last() =~= Seq::<char>::empty());
    assert(printable(seq![c]) =~= seq![c]);
    assert((q + seq![c]).drop_last() =~= q);
}

/// After moving the highlight through a non-empty list of results it lies
/// on a result.
pub proof fn lemma_selection_stays_in_list(selected: int, delta: int, len: int)
    requires
        len > 0,
    ensures
        0 <= (selected + delta) % len < len,
{
}

} // verus!
