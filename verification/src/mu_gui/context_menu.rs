//! The right-click menu: its entries, commands and where its panel goes.
use vstd::prelude::*;
use crate::mu_core::db::Song;

verus! {

/// Width of the menu panel.
pub const MENU_W: i32 = 220;
/// Height of one entry.
pub const ROW_H: i32 = 32;
/// Padding above the first and below the last entry.
pub const PAD: i32 = 4;
/// Extra height of a separator line above an entry.
pub const SEPARATOR_H: i32 = 9;
/// Distance the panel keeps from the window's edges.
pub const EDGE: i32 = 8;

/// A rectangle on screen.
#[derive(Debug, Clone, Copy, PartialEq, Eq, Structural)]
pub struct Rect {
    pub x: i32,
    pub y: i32,
    pub width: i32,
    pub height: i32,
}

/// What a menu entry does.
#[derive(Debug, Clone)]
pub enum MenuCommand {
    /// Play a temporary session (does not touch the queue).
    Play { songs: Vec<Song>, index: usize },
    /// Append to the explicit queue.
    AddToQueue(Vec<Song>),
    /// Queue: remove the songs at these positions.
    RemoveFromQueue(Vec<usize>),
    /// Queue: move a song up or down.
    MoveUp(usize),
    MoveDown(usize),
    ClearQueue,
    ClearExceptPlaying,
    SaveQueueAsPlaylist,
    /// Delete a saved playlist by name (file and list entry).
    DeletePlaylist(String),
}

/// One row of the menu.
#[derive(Debug)]
pub struct Entry {
    pub label: String,
    pub command: MenuCommand,
    /// A separator line is drawn above this row.
    pub separator_before: bool,
}

/// A menu opened at a point, with its entries.
#[derive(Debug)]
pub struct ContextMenu {
    pub open: bool,
    pub x: i32,
    pub y: i32,
    pub entries: Vec<Entry>,
}

/// The height of the entries `0..n` of `entries`: a row each, plus a
/// separator above each entry but the first that asks for one.
pub open spec fn rows_height(entries: Seq<Entry>, n: int) -> int
    decreases n,
{
    if n <= 0 {
        0
    } else {
        rows_height(entries, n - 1) + ROW_H + if entries[n - 1].separator_before && n - 1 > 0 {
            SEPARATOR_H as int
        } else {
            0int
        }
    }
}

/// `v` brought into `lo..=hi`.
pub open spec fn clamp(v: int, lo: int, hi: int) -> int {
    if v < lo {
        lo
    } else if v > hi {
        hi
    } else {
        v
    }
}

proof fn lemma_rows_height_monotone(entries: Seq<Entry>, m: int, n: int)
    requires
        0 <= m <= n,
    ensures
        0 <= rows_height(entries, m) <= rows_height(entries, n),
    decreases n,
{
    if n > 0 {
        if m < n {
            lemma_rows_height_monotone(entries, m, n - 1);
        } else {
            lemma_rows_height_monotone(entries, n - 1, n - 1);
        }
    }
}

impl ContextMenu {
    /// A closed menu.
    pub fn new() -> (r: Self)
        ensures
            !r.open,
            r.x == 0 && r.y == 0,
            r.entries@.len() == 0,
    {
        ContextMenu { open: false, x: 0, y: 0, entries: Vec::new() }
    }

    pub fn is_open(&self) -> (r: bool)
        ensures
            r == self.open,
    {
        self.open
    }

    /// Close the menu and drop its entries.
    pub fn close(&mut self)
        ensures
            !final(self).open,
            final(self).entries@.len() == 0,
            final(self).x == old(self).x,
            final(self).y == old(self).y,
    {
        self.open = false;
        self.entries.clear();
    }

    /// Open the menu at `(x, y)` with the given labels and commands, no
    /// separators; with no entries nothing happens.
    pub fn open_at(&mut self, x: i32, y: i32, entries: Vec<(String, MenuCommand)>)
        ensures
            entries.len() == 0 ==> *final(self) == *old(self),
            entries.len() > 0 ==> {
                &&& final(self).open
                &&& final(self).x == x
                &&& final(self).y == y
                &&& final(self).entries@.len() == entries.len()
                &&& forall|i: int| 0 <= i < entries.len() ==> {
                    &&& (#[trigger] final(self).entries@[i]).label == entries@[i].0
                    &&& final(self).entries@[i].command == entries@[i].1
                    &&& !final(self).entries@[i].separator_before
                }
            },
    {
        if entries.len() == 0 {
            return;
        }
        self.open = true;
        self.x = x;
        self.y = y;
        let ghost given = entries@;
        let mut rest = entries;
        let mut rows: Vec<Entry> = Vec::new();
        while rest.len() > 0
            invariant
                rows.len() + rest.len() == given.len(),
                rest@ == given.subrange(rows.len() as int, given.len() as int),
                forall|i: int| 0 <= i < rows.len() ==> {
                    &&& (#[trigger] rows@[i]).label == given[i].0
                    &&& rows@[i].command == given[i].1
                    &&& !rows@[i].separator_before
                },
            decreases rest.len(),
        {
            let ghost k = rows.len() as int;
            let (label, command) = rest.remove(0);
            proof {
                assert(rest@ =~= given.subrange(k + 1, given.len() as int));
            }
            rows.push(Entry { label, command, separator_before: false });
        }
        self.entries = rows;
    }

    /// Like `open_at`, and the entry at `sep_before_index`, if there is one,
    /// gets a separator line above it.
    pub fn open_at_with_sep(&mut self, x: i32, y: i32, entries: Vec<(String, MenuCommand)>, sep_before_index: usize)
        ensures
            entries.len() == 0 ==> *final(self) == *old(self),
            entries.len() > 0 ==> {
                &&& final(self).open
                &&& final(self).x == x
                &&& final(self).y == y
                &&& final(self).entries@.len() == entries.len()
                &&& forall|i: int| 0 <= i < entries.len() ==> {
                    &&& (#[trigger] final(self).entries@[i]).label == entries@[i].0
                    &&& final(self).entries@[i].command == entries@[i].1
                    &&& final(self).entries@[i].separator_before == (i == sep_before_index)
                }
            },
    {
        let n = entries.len();
        self.open_at(x, y, entries);
        if n > 0 && sep_before_index < self.entries.len() {
            let mut e = self.entries.remove(sep_before_index);
            e.separator_before = true;
            self.entries.insert(sep_before_index, e);
        }
    }

    /// The height of the menu's panel: its rows, separators and padding.
    pub fn content_height(&self) -> (h: i32)
        requires
            2 * PAD + rows_height(self.entries@, self.entries.len() as int) <= i32::MAX,
        ensures
            h == 2 * PAD + rows_height(self.entries@, self.entries.len() as int),
    {
        let mut content_h: i32 = PAD * 2;
        let mut i: usize = 0;
        while i < self.entries.len()
            invariant
                2 * PAD + rows_height(self.entries@, self.entries.len() as int) <= i32::MAX,
                i <= self.entries.len(),
                content_h == 2 * PAD + rows_height(self.entries@, i as int),
            decreases self.entries.len() - i,
        {
            proof {
                lemma_rows_height_monotone(self.entries@, i + 1, self.entries.len() as int);
            }
            if self.entries[i].separator_before && i > 0 {
                content_h = content_h + SEPARATOR_H;
            }
            content_h = content_h + ROW_H;
            i = i + 1;
        }
        content_h
    }

    /// Where the panel goes in a window of the given size: at the point the
    /// menu was opened at, moved back inside the window's edges where it
    /// would stick out (to the top-left edge if it does not fit).
    pub fn panel_rect(&self, win_w: i32, win_h: i32) -> (r: Rect)
        requires
            2 * PAD + rows_height(self.entries@, self.entries.len() as int) <= i32::MAX,
            win_h - (2 * PAD + rows_height(self.entries@, self.entries.len() as int)) - EDGE >= i32::MIN,
            win_w >= i32::MIN + MENU_W + EDGE,
        ensures
            ({
                let h = 2 * PAD + rows_height(self.entries@, self.entries.len() as int);
                let max_x = if win_w - MENU_W - EDGE > EDGE { win_w - MENU_W - EDGE } else { EDGE as int };
                let max_y = if win_h - h - EDGE > EDGE { win_h - h - EDGE } else { EDGE as int };
                &&& r.x == clamp(self.x as int, EDGE as int, max_x)
                &&& r.y == clamp(self.y as int, EDGE as int, max_y)
                &&& r.width == MENU_W
                &&& r.height == h
            }),
    {
        let content_h = self.content_height();
        proof {
            lemma_rows_height_monotone(self.entries@, 0, self.entries.len() as int);
        }
        let max_x = if win_w - MENU_W - EDGE > EDGE { win_w - MENU_W - EDGE } else { EDGE };
        let max_y = if win_h - content_h - EDGE > EDGE { win_h - content_h - EDGE } else { EDGE };
        let x = if self.x < EDGE { EDGE } else if self.x > max_x { max_x } else { self.x };
        let y = if self.y < EDGE { EDGE } else if self.y > max_y { max_y } else { self.y };
        Rect { x, y, width: MENU_W, height: content_h }
    }
}

/// A menu panel `h` high placed for a window with room for it lies inside
/// the window, at least the edge margin away from each side.
pub proof fn lemma_panel_inside(x: int, y: int, win_w: int, win_h: int, h: int)
    requires
        win_w >= MENU_W + 2 * EDGE,
        win_h >= h + 2 * EDGE,
    ensures
        ({
            let max_x = if win_w - MENU_W - EDGE > EDGE { win_w - MENU_W - EDGE } else { EDGE as int };
            let max_y = if win_h - h - EDGE > EDGE { win_h - h - EDGE } else { EDGE as int };
            let px = clamp(x, EDGE as int, max_x);
            let py = clamp(y, EDGE as int, max_y);
            &&& EDGE <= px && px + MENU_W <= win_w - EDGE
            &&& EDGE <= py && py + h <= win_h - EDGE
        }),
{
}

} // verus!
