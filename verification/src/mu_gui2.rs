//! A later desktop front end: where a dragged queue row drops and how the
//! queue is reordered under it, and the artist page's layout and labels.
pub mod library;

use vstd::prelude::*;

verus! {

/// The height of a queue row.
pub const ROW_HEIGHT: i32 = 60;

/// The gap between queue rows.
pub const ROW_GAP: i32 = 4;

/// The distance from one queue row to the next.
pub const ROW_STEP: i32 = 64;

/// A queue row being dragged.
#[derive(Debug, Clone, Copy, PartialEq, Eq, Structural)]
pub struct Drag {
    pub index: usize,
    /// Distance from the top of the row to the mouse when it was grabbed.
    pub grab: i32,
}

/// The slot a dragged row whose centre is `centre` pixels below the top of
/// the list falls into, in a queue of `len` rows: the row step it lies in,
/// kept between the first and the last slot.
pub open spec fn drop_slot(centre: int, len: int) -> int {
    let last = if len > 0 { len - 1 } else { 0 };
    if centre < 0 {
        0
    } else if centre / (ROW_STEP as int) > last {
        last
    } else {
        centre / (ROW_STEP as int)
    }
}

/// The slot under a dragged row's centre.
pub fn drop_target(centre: i32, len: usize) -> (r: usize)
    requires
        len <= i32::MAX,
    ensures
        r == drop_slot(centre as int, len as int),
{
    let last: i32 = if len > 0 { (len - 1) as i32 } else { 0 };
    let slot = centre / ROW_STEP;
    let target = if slot < 0 { 0 } else if slot > last { last } else { slot };
    proof {
        if centre < 0 {
            assert(slot <= 0);
        } else {
            assert(slot == centre as int / (ROW_STEP as int));
        }
    }
    target as usize
}

/// Move the dragged row to slot `target`: it leaves its place and is put
/// back at `target`, and the drag follows it.
pub fn move_dragged<T>(songs: &mut Vec<T>, drag: &mut Drag, target: usize)
    requires
        old(drag).index < old(songs)@.len(),
        target < old(songs)@.len(),
    ensures
        final(drag).grab == old(drag).grab,
        final(drag).index == target,
        target == old(drag).index ==> final(songs)@ == old(songs)@,
        target != old(drag).index ==> final(songs)@ == old(songs)@.remove(old(drag).index as int).insert(
            target as int,
            old(songs)@[old(drag).index as int],
        ),
{
    if target != drag.index {
        let song = songs.remove(drag.index);
        songs.insert(target, song);
        drag.index = target;
    }
}

} // verus!
