//! Artist list layout: letter headings, scroll offsets and prefix jumps.
use vstd::prelude::*;
use crate::text::{views, lowercase, to_lowercase, starts_with_text};

verus! {

/// Height of one artist row, in pixels.
pub const ARTIST_ROW_H: usize = 30;
/// Height of a letter heading, in pixels.
pub const ARTIST_LETTER_H: usize = 21;

/// `c` with an ASCII lower-case letter made upper-case, as
/// `char::to_ascii_uppercase` does.
pub open spec fn ascii_upper(c: char) -> char {
    if 'a' <= c && c <= 'z' {
        ((c as u32) - 32) as char
    } else {
        c
    }
}

/// The letter heading an artist name is listed under: its first character
/// in ASCII upper case, `#` for an empty name.
pub open spec fn heading(name: Seq<char>) -> char {
    if name.len() == 0 {
        '#'
    } else {
        ascii_upper(name[0])
    }
}

/// The number of positions `1 <= m < n` where the heading changes from the
/// name before.
pub open spec fn heading_changes(names: Seq<Seq<char>>, n: int) -> int
    decreases n,
{
    if n <= 1 {
        0
    } else {
        heading_changes(names, n - 1) + if heading(names[n - 1]) != heading(names[n - 2]) {
            1int
        } else {
            0int
        }
    }
}

/// The offset of the row of name `k` below the first heading: the rows
/// above it and the headings opened since the first.
pub open spec fn row_top(names: Seq<Seq<char>>, k: int) -> int {
    k * (ARTIST_ROW_H as int) + heading_changes(names, k + 1) * (ARTIST_LETTER_H as int)
}

/// The name, from `k` on, whose row is the first to reach below `scroll`;
/// the last name if none does.
pub open spec fn sticky_index(names: Seq<Seq<char>>, scroll: int, k: int) -> int
    decreases names.len() - k,
{
    if k + 1 >= names.len() {
        names.len() - 1
    } else if row_top(names, k) + ARTIST_ROW_H > scroll {
        k
    } else {
        sticky_index(names, scroll, k + 1)
    }
}

proof fn lemma_heading_changes_bounds(names: Seq<Seq<char>>, n: int)
    ensures
        0 <= heading_changes(names, n),
        n >= 1 ==> heading_changes(names, n) < n,
    decreases n,
{
    if n > 1 {
        lemma_heading_changes_bounds(names, n - 1);
    }
}

/// The letter heading of a name.
pub fn heading_of(name: &String) -> (c: char)
    ensures
        c == heading(name@),
{
    let n = name.unicode_len();
    if n == 0 {
        '#'
    } else {
        let c = name.as_str().get_char(0);
        if c >= 'a' && c <= 'z' {
            ((c as u8) - 32) as char
        } else {
            c
        }
    }
}

/// The heading shown pinned at the top of the artist list scrolled down by
/// `scroll_y`: that of the first row reaching below the top.
pub fn sticky_letter(artists: &[String], scroll_y: usize) -> (r: Option<char>)
    requires
        artists.len() <= usize::MAX / 64,
    ensures
        artists.len() == 0 ==> r is None,
        artists.len() > 0 ==> r == Some(heading(views(artists@)[sticky_index(views(artists@), scroll_y as int, 0)])),
{
    let ghost names = views(artists@);
    if artists.len() == 0 {
        return None;
    }
    let mut y: usize = 0;
    let mut last = heading_of(&artists[0]);
    let mut k: usize = 0;
    while k < artists.len()
        invariant
            names == views(artists@),
            0 < artists.len() <= usize::MAX / 64,
            k < artists.len(),
            last == heading(names[if k == 0 { 0 } else { k - 1 }]),
            y == k * (ARTIST_ROW_H as int) + heading_changes(names, k as int) * (ARTIST_LETTER_H as int),
            sticky_index(names, scroll_y as int, 0) == sticky_index(names, scroll_y as int, k as int),
        decreases artists.len() - k,
    {
        proof {
            lemma_heading_changes_bounds(names, k as int);
            assert(y <= 51 * k) by (nonlinear_arith)
                requires
                    y == k * 30 + heading_changes(names, k as int) * 21,
                    heading_changes(names, k as int) <= k,
                    0 <= heading_changes(names, k as int),
            ;
        }
        let letter = heading_of(&artists[k]);
        if letter != last {
            y = y + ARTIST_LETTER_H;
            last = letter;
        }
        proof {
            assert(y == row_top(names, k as int));
        }
        if y + ARTIST_ROW_H > scroll_y {
            return Some(letter);
        }
        if k + 1 == artists.len() {
            return Some(letter);
        }
        y = y + ARTIST_ROW_H;
        k = k + 1;
    }
    Some(last)
}

/// The scroll offset that brings the row of name `index` to the top of the
/// artist list, just under the pinned heading; 0 for a position past the
/// end.
pub fn scroll_to_index(artists: &[String], index: usize) -> (r: usize)
    requires
        artists.len() <= usize::MAX / 64,
    ensures
        index < artists.len() ==> r == row_top(views(artists@), index as int),
        index >= artists.len() ==> r == 0,
{
    let ghost names = views(artists@);
    if artists.len() == 0 || index >= artists.len() {
        return 0;
    }
    let mut y: usize = 0;
    let mut last_letter: Option<char> = None;
    let mut i: usize = 0;
    while i < artists.len()
        invariant
            names == views(artists@),
            artists.len() <= usize::MAX / 64,
            i <= index < artists.len(),
            i == 0 ==> last_letter is None,
            i > 0 ==> last_letter == Some(heading(names[i - 1])),
            i == 0 ==> y == 0,
            i > 0 ==> y == i * (ARTIST_ROW_H as int) + (heading_changes(names, i as int) + 1) * (ARTIST_LETTER_H as int),
        decreases artists.len() - i,
    {
        proof {
            lemma_heading_changes_bounds(names, i as int);
            assert(y <= 51 * i) by (nonlinear_arith)
                requires
                    i == 0 ==> y == 0,
                    i > 0 ==> y == i * 30 + (heading_changes(names, i as int) + 1) * 21,
                    heading_changes(names, i as int) < i || i == 0,
                    0 <= heading_changes(names, i as int),
            ;
        }
        let letter = heading_of(&artists[i]);
        let new_letter = match last_letter {
            Some(l) => l != letter,
            None => true,
        };
        if new_letter {
            y = y + ARTIST_LETTER_H;
            last_letter = Some(letter);
        }
        if i == index {
            // leave room for the pinned heading so the name stays visible
            return y - ARTIST_LETTER_H;
        }
        y = y + ARTIST_ROW_H;
        i = i + 1;
    }
    0
}

/// The first name that begins with `prefix`.
pub fn position_with_prefix(names: &[String], prefix: &str) -> (r: Option<usize>)
    ensures
        match r {
            Some(i) => {
                &&& i < names.len()
                &&& prefix@.is_prefix_of(names@[i as int]@)
                &&& forall|j: int| 0 <= j < i ==> !prefix@.is_prefix_of(#[trigger] names@[j]@)
            },
            None => forall|j: int| 0 <= j < names.len() ==> !prefix@.is_prefix_of(#[trigger] names@[j]@),
        },
{
    let mut i: usize = 0;
    while i < names.len()
        invariant
            i <= names.len(),
            forall|j: int| 0 <= j < i ==> !prefix@.is_prefix_of(#[trigger] names@[j]@),
        decreases names.len() - i,
    {
        if starts_with_text(names[i].as_str(), prefix) {
            return Some(i);
        }
        i = i + 1;
    }
    None
}

/// The first artist whose name begins with `prefix`, both compared in lower
/// case; none for an empty prefix.
pub fn find_prefix(artists: &[String], prefix: &str) -> (r: Option<usize>)
    ensures
        match r {
            Some(i) => {
                &&& prefix@.len() > 0
                &&& i < artists.len()
                &&& lowercase(prefix@).is_prefix_of(lowercase(artists@[i as int]@))
                &&& forall|j: int| 0 <= j < i ==> !lowercase(prefix@).is_prefix_of(lowercase(#[trigger] artists@[j]@))
            },
            None => prefix@.len() == 0 || forall|j: int|
                0 <= j < artists.len() ==> !lowercase(prefix@).is_prefix_of(lowercase(#[trigger] artists@[j]@)),
        },
{
    if prefix.unicode_len() == 0 {
        return None;
    }
    let prefix_lower = to_lowercase(prefix);
    let mut lowered: Vec<String> = Vec::new();
    let mut i: usize = 0;
    while i < artists.len()
        invariant
            i <= artists.len(),
            lowered.len() == i,
            forall|j: int| 0 <= j < i ==> (#[trigger] lowered@[j])@ == lowercase(artists@[j]@),
        decreases artists.len() - i,
    {
        lowered.push(to_lowercase(artists[i].as_str()));
        i = i + 1;
    }
    let r = position_with_prefix(lowered.as_slice(), prefix_lower.as_str());
    proof {
        assert forall|j: int| 0 <= j < artists.len() implies lowered@[j]@ == lowercase(#[trigger] artists@[j]@) by {
            assert(lowered@[j]@ == lowercase(artists@[j]@));
        }
    }
    r
}

/// Each row lies at least a row's height below the one before it.
proof fn lemma_row_top_step(names: Seq<Seq<char>>, k: int)
    requires
        0 <= k,
    ensures
        row_top(names, k + 1) >= row_top(names, k) + ARTIST_ROW_H,
{
    assert(heading_changes(names, k + 2) >= heading_changes(names, k + 1));
}

/// From position `k` on, the pinned row of a list scrolled to row `i` is
/// row `i`, when every row before `i` ends above it.
proof fn lemma_sticky_from(names: Seq<Seq<char>>, i: int, k: int)
    requires
        0 <= k <= i < names.len(),
    ensures
        sticky_index(names, row_top(names, i), k) == i,
    decreases i - k,
{
    if k < i {
        assert(row_top(names, k) + ARTIST_ROW_H <= row_top(names, i)) by {
            lemma_rows_apart(names, k, i);
        }
        lemma_sticky_from(names, i, k + 1);
    }
}

/// A later row lies at least a row's height further down.
proof fn lemma_rows_apart(names: Seq<Seq<char>>, k: int, i: int)
    requires
        0 <= k < i,
    ensures
        row_top(names, k) + ARTIST_ROW_H <= row_top(names, i),
    decreases i - k,
{
    lemma_row_top_step(names, k);
    if k + 1 < i {
        lemma_rows_apart(names, k + 1, i);
    }
}

/// Scrolling the artist list to a name pins that name's letter heading at
/// the top: the offset `scroll_to_index` gives for a name is one at which
/// `sticky_letter` shows the name's heading.
pub proof fn lemma_scroll_pins_heading(names: Seq<Seq<char>>, i: int)
    requires
        0 <= i < names.len(),
    ensures
        sticky_index(names, row_top(names, i), 0) == i,
{
    lemma_sticky_from(names, i, 0);
}

} // verus!
