//! Multi-select by song path (click / Shift-range / Ctrl-toggle).
use vstd::prelude::*;
use crate::mu_core::db::{Song, first_song_with_path, find_song_by_path, song_paths};
use crate::text::{views, find_string};

verus! {

/// The last element of a sequence, if any.
pub open spec fn last_of(s: Seq<Seq<char>>) -> Option<Seq<char>> {
    if s.len() > 0 { Some(s.last()) } else { None }
}

/// Selected paths and anchor after a plain click on `p`.
pub open spec fn after_select_only(p: Seq<char>) -> (Seq<Seq<char>>, Option<Seq<char>>) {
    (seq![p], Some(p))
}

/// Selected paths and anchor after a Ctrl-click on `p`: a selected path
/// leaves (its first occurrence), and the anchor moves to the last
/// remaining path if it was on `p`; an unselected path joins at the end
/// and becomes the anchor.
pub open spec fn after_toggle(
    paths: Seq<Seq<char>>,
    anchor: Option<Seq<char>>,
    p: Seq<char>,
) -> (Seq<Seq<char>>, Option<Seq<char>>) {
    match paths.index_of_first(p) {
        Some(i) => {
            let rest = paths.remove(i);
            (rest, if anchor == Some(p) { last_of(rest) } else { anchor })
        },
        None => (paths.push(p), Some(p)),
    }
}

pub open spec fn min_int(a: int, b: int) -> int {
    if a <= b { a } else { b }
}

pub open spec fn max_int(a: int, b: int) -> int {
    if a <= b { b } else { a }
}

/// Selected paths and anchor after a Shift-click on `p` in the list
/// `ordered`: everything between the anchor and `p` (both included), the
/// anchor kept; a plain click when there is no anchor or either end is not
/// in the list.
pub open spec fn after_select_range(
    anchor: Option<Seq<char>>,
    ordered: Seq<Seq<char>>,
    p: Seq<char>,
) -> (Seq<Seq<char>>, Option<Seq<char>>) {
    match anchor {
        None => after_select_only(p),
        Some(a) => match (ordered.index_of_first(a), ordered.index_of_first(p)) {
            (Some(x), Some(y)) => (ordered.subrange(min_int(x, y), max_int(x, y) + 1), Some(a)),
            _ => after_select_only(p),
        },
    }
}

/// Selected paths and anchor after a click with modifiers: Shift wins over
/// Ctrl, and neither means a plain click.
pub open spec fn after_click(
    paths: Seq<Seq<char>>,
    anchor: Option<Seq<char>>,
    ordered: Seq<Seq<char>>,
    p: Seq<char>,
    shift: bool,
    ctrl: bool,
) -> (Seq<Seq<char>>, Option<Seq<char>>) {
    if shift {
        after_select_range(anchor, ordered, p)
    } else if ctrl {
        after_toggle(paths, anchor, p)
    } else {
        after_select_only(p)
    }
}

/// The songs of `all` picked by the selected paths, in selection order:
/// for each path the first song carrying it, paths without a song skipped.
pub open spec fn collected(paths: Seq<Seq<char>>, all: Seq<Song>) -> Seq<Song> {
    paths.filter_map(|p: Seq<char>| first_song_with_path(all, p))
}

/// A set of selected song paths, with the anchor that Shift-clicks extend from.
#[derive(Debug, Default, Clone)]
pub struct PathSelection {
    paths: Vec<String>,
    /// Anchor for Shift-range selection.
    anchor: Option<String>,
}

impl PathSelection {
    /// The selected paths, in order.
    pub closed spec fn path_view(&self) -> Seq<Seq<char>> {
        views(self.paths@)
    }

    /// The anchor's path.
    pub closed spec fn anchor_view(&self) -> Option<Seq<char>> {
        match self.anchor {
            Some(a) => Some(a@),
            None => None,
        }
    }

    pub fn new() -> (r: Self)
        ensures
            r.path_view() == Seq::<Seq<char>>::empty(),
            r.anchor_view() is None,
    {
        PathSelection { paths: Vec::new(), anchor: None }
    }

    pub fn clear(&mut self)
        ensures
            final(self).path_view() == Seq::<Seq<char>>::empty(),
            final(self).anchor_view() is None,
    {
        self.paths.clear();
        self.anchor = None;
    }

    pub fn is_empty(&self) -> (r: bool)
        ensures
            r == (self.path_view().len() == 0),
    {
        self.paths.is_empty()
    }

    pub fn paths(&self) -> (r: &[String])
        ensures
            views(r@) == self.path_view(),
    {
        self.paths.as_slice()
    }

    pub fn contains(&self, path: &str) -> (r: bool)
        ensures
            r == self.path_view().contains(path@),
    {
        let target = path.to_owned();
        let found = find_string(self.paths.as_slice(), &target);
        proof {
            self.path_view().index_of_first_ensures(path@);
        }
        found.is_some()
    }

    pub fn first(&self) -> (r: Option<&str>)
        ensures
            match r {
                Some(s) => self.path_view().len() > 0 && s@ == self.path_view()[0],
                None => self.path_view().len() == 0,
            },
    {
        if self.paths.len() > 0 {
            Some(self.paths[0].as_str())
        } else {
            None
        }
    }

    /// Plain click: select only this path.
    pub fn select_only(&mut self, path: String)
        ensures
            (final(self).path_view(), final(self).anchor_view()) == after_select_only(path@),
    {
        self.paths.clear();
        self.paths.push(path.clone());
        self.anchor = Some(path);
        proof {
            assert(self.path_view() =~= seq![path@]);
        }
    }

    /// Ctrl/Cmd click: toggle membership.
    pub fn toggle(&mut self, path: String)
        ensures
            (final(self).path_view(), final(self).anchor_view()) == after_toggle(
                old(self).path_view(),
                old(self).anchor_view(),
                path@,
            ),
    {
        let ghost old_paths = self.path_view();
        match find_string(self.paths.as_slice(), &path) {
            Some(i) => {
                self.paths.remove(i);
                proof {
                    assert(self.path_view() =~= old_paths.remove(i as int));
                }
                let on_anchor = match &self.anchor {
                    Some(a) => *a == path,
                    None => false,
                };
                if on_anchor {
                    let n = self.paths.len();
                    if n > 0 {
                        self.anchor = Some(self.paths[n - 1].clone());
                    } else {
                        self.anchor = None;
                    }
                }
            },
            None => {
                self.paths.push(path.clone());
                self.anchor = Some(path);
                proof {
                    assert(self.path_view() =~= old_paths.push(path@));
                }
            },
        }
    }

    /// Shift click: select contiguous range in `ordered` from anchor to `path`.
    pub fn select_range(&mut self, ordered: &[String], path: String)
        ensures
            (final(self).path_view(), final(self).anchor_view()) == after_select_range(
                old(self).anchor_view(),
                views(ordered@),
                path@,
            ),
    {
        let anchor = match &self.anchor {
            Some(a) => a.clone(),
            None => {
                self.select_only(path);
                return;
            },
        };
        let a = match find_string(ordered, &anchor) {
            Some(a) => a,
            None => {
                self.select_only(path);
                return;
            },
        };
        let b = match find_string(ordered, &path) {
            Some(b) => b,
            None => {
                self.select_only(path);
                return;
            },
        };
        let (lo, hi) = if a <= b { (a, b) } else { (b, a) };
        let mut picked: Vec<String> = Vec::new();
        let mut k = lo;
        while k <= hi
            invariant
                lo <= hi < ordered.len(),
                lo <= k <= hi + 1,
                views(picked@) =~= views(ordered@).subrange(lo as int, k as int),
            decreases hi + 1 - k,
        {
            proof {
                assert(views(ordered@)[k as int] == ordered@[k as int]@);
            }
            let ghost before = picked@;
            picked.push(ordered[k].clone());
            proof {
                assert(picked@ == before.push(ordered@[k as int]));
                assert(views(picked@) =~= views(before).push(ordered@[k as int]@));
                assert(views(ordered@).subrange(lo as int, k + 1) =~= views(ordered@).subrange(
                    lo as int,
                    k as int,
                ).push(ordered@[k as int]@));
            }
            k = k + 1;
        }
        self.paths = picked;
        // Keep the anchor so further Shift-clicks extend from it.
        self.anchor = Some(anchor);
    }

    /// Apply modifiers: shift = range, ctrl = toggle, else only.
    pub fn click(&mut self, ordered: &[String], path: String, shift: bool, ctrl: bool)
        ensures
            (final(self).path_view(), final(self).anchor_view()) == after_click(
                old(self).path_view(),
                old(self).anchor_view(),
                views(ordered@),
                path@,
                shift,
                ctrl,
            ),
    {
        if shift {
            self.select_range(ordered, path);
        } else if ctrl {
            self.toggle(path);
        } else {
            self.select_only(path);
        }
    }

    /// Collect songs from `all` whose paths are selected, preserving selection order.
    pub fn collect_songs(&self, all: &[Song]) -> (r: Vec<Song>)
        ensures
            r@ == collected(self.path_view(), all@),
    {
        let ghost f = |p: Seq<char>| first_song_with_path(all@, p);
        let mut out: Vec<Song> = Vec::new();
        let mut i: usize = 0;
        while i < self.paths.len()
            invariant
                i <= self.paths.len(),
                f == (|p: Seq<char>| first_song_with_path(all@, p)),
                out@ == self.path_view().take(i as int).filter_map(f),
            decreases self.paths.len() - i,
        {
            proof {
                assert(self.path_view().take(i + 1).drop_last() =~= self.path_view().take(i as int));
                assert(self.path_view().take(i + 1).last() == self.paths@[i as int]@);
            }
            match find_song_by_path(all, &self.paths[i]) {
                Some(j) => {
                    out.push(all[j].duplicate());
                },
                None => {},
            }
            i = i + 1;
        }
        proof {
            assert(self.path_view().take(self.paths.len() as int) =~= self.path_view());
        }
        out
    }
}


/// Ctrl-clicking a path flips whether it is selected, as long as no path is
/// selected twice.
pub proof fn lemma_toggle_flips_membership(
    paths: Seq<Seq<char>>,
    anchor: Option<Seq<char>>,
    p: Seq<char>,
)
    requires
        paths.no_duplicates(),
    ensures
        after_toggle(paths, anchor, p).0.contains(p) == !paths.contains(p),
{
    paths.index_of_first_ensures(p);
    match paths.index_of_first(p) {
        Some(i) => {
            let rest = paths.remove(i);
            paths.remove_ensures(i);
            if rest.contains(p) {
                let k = choose|k: int| 0 <= k < rest.len() && rest[k] == p;
                if k < i {
                    assert(paths[k] == p);
                } else {
                    assert(paths[k + 1] == p);
                }
            }
        },
        None => {
            assert(paths.push(p)[paths.len() as int] == p);
        },
    }
}

/// Ctrl-clicking a path that is not selected twice in a row gives back the
/// selected paths one started with.
pub proof fn lemma_toggle_twice_restores(
    paths: Seq<Seq<char>>,
    anchor: Option<Seq<char>>,
    p: Seq<char>,
)
    requires
        !paths.contains(p),
    ensures
        ({
            let once = after_toggle(paths, anchor, p);
            after_toggle(once.0, once.1, p).0 == paths
        }),
{
    paths.index_of_first_ensures(p);
    let pushed = paths.push(p);
    pushed.index_of_first_ensures(p);
    assert(pushed[paths.len() as int] == p);
    assert(pushed.contains(p));
    let i = pushed.index_of_first(p).unwrap();
    if i < paths.len() {
        assert(paths[i] == p);
    }
    assert(i == paths.len());
    assert(pushed.remove(i) =~= paths);
}

/// Ctrl-clicking never makes a path appear twice.
pub proof fn lemma_toggle_keeps_distinct(
    paths: Seq<Seq<char>>,
    anchor: Option<Seq<char>>,
    p: Seq<char>,
)
    requires
        paths.no_duplicates(),
    ensures
        after_toggle(paths, anchor, p).0.no_duplicates(),
{
    paths.index_of_first_ensures(p);
    match paths.index_of_first(p) {
        Some(i) => {
            paths.remove_ensures(i);
            let rest = paths.remove(i);
            assert forall|a: int, b: int|
                0 <= a < rest.len() && 0 <= b < rest.len() && a != b implies rest[a] != rest[b] by {
                let a2 = if a < i { a } else { a + 1 };
                let b2 = if b < i { b } else { b + 1 };
                assert(rest[a] == paths[a2]);
                assert(rest[b] == paths[b2]);
            }
        },
        None => {
            let pushed = paths.push(p);
            assert forall|a: int, b: int|
                0 <= a < pushed.len() && 0 <= b < pushed.len() && a != b implies pushed[a]
                != pushed[b] by {
                if a < paths.len() && b < paths.len() {
                } else if a < paths.len() {
                    assert(paths.contains(paths[a]));
                } else if b < paths.len() {
                    assert(paths.contains(paths[b]));
                }
            }
        },
    }
}

/// A Shift-click range taken from a list without repeats has no repeats.
pub proof fn lemma_range_keeps_distinct(
    anchor: Option<Seq<char>>,
    ordered: Seq<Seq<char>>,
    p: Seq<char>,
)
    requires
        ordered.no_duplicates(),
    ensures
        after_select_range(anchor, ordered, p).0.no_duplicates(),
{
    ordered.index_of_first_ensures(p);
    match anchor {
        None => {},
        Some(a) => {
            ordered.index_of_first_ensures(a);
            match (ordered.index_of_first(a), ordered.index_of_first(p)) {
                (Some(x), Some(y)) => {
                    let lo = min_int(x, y);
                    let r = ordered.subrange(lo, max_int(x, y) + 1);
                    assert forall|i: int, j: int|
                        0 <= i < r.len() && 0 <= j < r.len() && i != j implies r[i] != r[j] by {
                        assert(r[i] == ordered[lo + i]);
                        assert(r[j] == ordered[lo + j]);
                    }
                },
                _ => {},
            }
        },
    }
}

/// When both ends are in the list, a Shift-click selects both the anchor and
/// the clicked path, and keeps the anchor.
pub proof fn lemma_range_covers_both_ends(
    a: Seq<char>,
    ordered: Seq<Seq<char>>,
    p: Seq<char>,
)
    requires
        ordered.contains(a),
        ordered.contains(p),
    ensures
        after_select_range(Some(a), ordered, p).0.contains(a),
        after_select_range(Some(a), ordered, p).0.contains(p),
        after_select_range(Some(a), ordered, p).1 == Some(a),
{
    ordered.index_of_first_ensures(a);
    ordered.index_of_first_ensures(p);
    let x = ordered.index_of_first(a).unwrap();
    let y = ordered.index_of_first(p).unwrap();
    let lo = min_int(x, y);
    let r = ordered.subrange(lo, max_int(x, y) + 1);
    assert(r[x - lo] == a);
    assert(r[y - lo] == p);
}

/// Every song that the selection collects carries a selected path.
pub proof fn lemma_collected_are_selected(paths: Seq<Seq<char>>, all: Seq<Song>, s: Song)
    requires
        collected(paths, all).contains(s),
    ensures
        paths.contains(s.path@),
        all.contains(s),
{
    let f = |p: Seq<char>| first_song_with_path(all, p);
    paths.lemma_filter_map_contains(f, s);
    let t = choose|t: Seq<char>| #[trigger] paths.contains(t) && f(t) == Some(s);
    song_paths(all).index_of_first_ensures(t);
    let i = song_paths(all).index_of_first(t).unwrap();
    assert(song_paths(all)[i] == all[i].path@);
    assert(all[i] == s);
}


/// A Shift-click with the anchor first found at position `x` of the list
/// and the clicked path first found at position `y` selects exactly the
/// rows between the two, both included, in list order: `|x - y| + 1` paths,
/// the `i`-th being row `lower end + i`; the anchor stays.
pub proof fn lemma_range_is_the_rows_between(
    a: Seq<char>,
    ordered: Seq<Seq<char>>,
    p: Seq<char>,
    x: int,
    y: int,
)
    requires
        0 <= x < ordered.len(),
        0 <= y < ordered.len(),
        ordered[x] == a,
        ordered[y] == p,
        forall|j: int| 0 <= j < x ==> ordered[j] != a,
        forall|j: int| 0 <= j < y ==> ordered[j] != p,
    ensures
        ({
            let (sel, anchor) = after_select_range(Some(a), ordered, p);
            let lo = if x <= y { x } else { y };
            &&& sel.len() == (if x <= y { y - x } else { x - y }) + 1
            &&& forall|i: int| 0 <= i < sel.len() ==> sel[i] == ordered[lo + i]
            &&& anchor == Some(a)
        }),
{
    ordered.index_of_first_ensures(a);
    ordered.index_of_first_ensures(p);
    assert(ordered.contains(a));
    assert(ordered.contains(p));
    let fx = ordered.index_of_first(a).unwrap();
    let fy = ordered.index_of_first(p).unwrap();
    assert(fx == x);
    assert(fy == y);
}

} // verus!
