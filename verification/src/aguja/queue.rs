//! The queue pane: what is in it, where the cursor is, and how it scrolls.
//!
//! The list is the player's; the cursor is this terminal's own, so it moves the
//! instant a key is pressed.
use vstd::prelude::*;

use crate::ipc::QueueItem;

verus! {

pub struct Queue {
    pub items: Vec<QueueItem>,
    /// What is playing.
    pub position: usize,
    /// What is selected.
    pub cursor: usize,
    /// Whether the cursor follows the music. It does until it is moved by hand.
    pub following: bool,
    /// The first visible row.
    pub offset: usize,
}

impl Default for Queue {
    fn default() -> (r: Self)
        ensures
            r.is_fresh(),
    {
        Queue { items: Vec::new(), position: 0, cursor: 0, following: true, offset: 0 }
    }
}

/// `i`, or the last of `len` things where it is past them.
pub open spec fn within(i: int, len: int) -> int {
    if len == 0 {
        0
    } else if i < len {
        i
    } else {
        len - 1
    }
}

/// `i`, or the last of `len` things where it is past them.
pub fn keep_within(i: usize, len: usize) -> (r: usize)
    ensures
        r == within(i as int, len as int),
{
    if len == 0 {
        0
    } else if i < len {
        i
    } else {
        len - 1
    }
}

/// A cursor moved by `delta` among `len` things, and kept among them.
pub open spec fn stepped(cursor: int, delta: int, len: int) -> int {
    if cursor + delta < 0 {
        0
    } else if cursor + delta > len - 1 {
        len - 1
    } else {
        cursor + delta
    }
}

/// A cursor moved by `delta` among `len` things, and kept among them.
pub fn step(cursor: usize, delta: isize, len: usize) -> (r: usize)
    requires
        len > 0,
    ensures
        r == stepped(cursor as int, delta as int, len as int),
{
    let to: i128 = cursor as i128 + delta as i128;
    if to < 0 {
        0
    } else if to > len as i128 - 1 {
        len - 1
    } else {
        to as usize
    }
}

/// The first visible row of a list of `len` in `height` rows, so that `cursor`
/// is visible and no row is wasted past the end.
pub open spec fn scrolled(offset: int, cursor: int, len: int, height: int) -> int {
    if height == 0 {
        offset
    } else {
        let seen = if cursor < offset {
            cursor
        } else if cursor >= offset + height {
            cursor + 1 - height
        } else {
            offset
        };
        let last = if len >= height {
            len - height
        } else {
            0
        };
        if seen < last {
            seen
        } else {
            last
        }
    }
}

/// The first visible row of a list of `len` in `height` rows.
pub fn scroll_to(offset: usize, cursor: usize, len: usize, height: usize) -> (r: usize)
    ensures
        r == scrolled(offset as int, cursor as int, len as int, height as int),
{
    if height == 0 {
        return offset;
    }
    let seen: usize = if cursor < offset {
        cursor
    } else if cursor - offset >= height {
        cursor - height + 1
    } else {
        offset
    };
    let last: usize = len.saturating_sub(height);
    if seen < last {
        seen
    } else {
        last
    }
}

/// However far the cursor moves, it stays on screen, and the list is never
/// scrolled past its end.
pub proof fn the_cursor_stays_on_screen(offset: int, cursor: int, len: int, height: int)
    requires
        0 <= offset,
        0 <= cursor < len,
        0 < height,
    ensures
        ({
            let o = scrolled(offset, cursor, len, height);
            &&& o <= cursor < o + height
            &&& 0 <= o
            &&& len >= height ==> o + height <= len
        }),
{
}

impl Queue {
    pub open spec fn is_fresh(self) -> bool {
        &&& self.items@.len() == 0
        &&& self.position == 0
        &&& self.cursor == 0
        &&& self.following
        &&& self.offset == 0
    }

    /// Take over a queue. The cursor goes to the playing track while it follows
    /// the music, and stays among the items either way.
    pub fn replace(&mut self, items: Vec<QueueItem>, position: usize)
        ensures
            *final(self) == (Queue {
                items,
                position,
                cursor: within(
                    if old(self).following {
                        position as int
                    } else {
                        old(self).cursor as int
                    },
                    items@.len() as int,
                ) as usize,
                ..*old(self)
            }),
    {
        self.items = items;
        self.position = position;
        if self.following {
            self.cursor = position;
        }
        self.cursor = keep_within(self.cursor, self.items.len());
    }

    /// This queue with the cursor moved by hand.
    pub open spec fn moved(self, delta: int) -> Queue {
        if self.items@.len() == 0 {
            self
        } else {
            Queue {
                cursor: stepped(self.cursor as int, delta, self.items@.len() as int) as usize,
                following: false,
                ..self
            }
        }
    }

    /// Move the cursor by hand, which stops it following the music.
    pub fn move_cursor(&mut self, delta: isize)
        ensures
            *final(self) == old(self).moved(delta as int),
    {
        if self.items.is_empty() {
            return;
        }
        self.cursor = step(self.cursor, delta, self.items.len());
        self.following = false;
    }

    /// This queue with the cursor back on the playing track.
    pub open spec fn followed(self) -> Queue {
        Queue {
            following: true,
            cursor: within(self.position as int, self.items@.len() as int) as usize,
            ..self
        }
    }

    /// Put the cursor back on the playing track and leave it there.
    pub fn follow(&mut self)
        ensures
            *final(self) == old(self).followed(),
    {
        self.following = true;
        self.cursor = keep_within(self.position, self.items.len());
    }

    /// Where moving the selected row by `delta` would put it, if that is in the
    /// queue.
    pub open spec fn spec_swap_target(self, delta: int) -> Option<int> {
        if 0 <= self.cursor + delta < self.items@.len() {
            Some(self.cursor + delta)
        } else {
            None
        }
    }

    /// Where moving the selected row by `delta` would put it. A move past
    /// either end is refused, not cut short.
    pub fn swap_target(&self, delta: isize) -> (r: Option<usize>)
        ensures
            match r {
                Some(to) => self.spec_swap_target(delta as int) == Some(to as int),
                None => self.spec_swap_target(delta as int) is None,
            },
    {
        let to: i128 = self.cursor as i128 + delta as i128;
        if to >= 0 && to < self.items.len() as i128 {
            Some(to as usize)
        } else {
            None
        }
    }

    /// Take the cursor along with a row that is about to move.
    pub fn cursor_to(&mut self, index: usize)
        ensures
            *final(self) == (Queue { cursor: index, following: false, ..*old(self) }),
    {
        self.cursor = index;
        self.following = false;
    }

    /// Scroll so that the cursor is visible in `height` rows.
    pub fn scroll(&mut self, height: usize)
        ensures
            *final(self) == (Queue {
                offset: scrolled(
                    old(self).offset as int,
                    old(self).cursor as int,
                    old(self).items@.len() as int,
                    height as int,
                ) as usize,
                ..*old(self)
            }),
    {
        self.offset = scroll_to(self.offset, self.cursor, self.items.len(), height);
    }
}

/// A queue that is taken over never strands the cursor outside it.
pub proof fn the_cursor_is_never_stranded(cursor: int, len: int)
    requires
        0 <= cursor,
        0 < len,
    ensures
        0 <= within(cursor, len) < len,
{
}

/// Moving the cursor by hand moves it by what is asked, stops it at either end,
/// and stops it following the music; going back to the music undoes that.
pub proof fn moving_by_hand_stops_following(q: Queue, delta: int)
    requires
        q.cursor < q.items@.len() <= usize::MAX,
    ensures
        !q.moved(delta).following,
        0 <= q.cursor + delta < q.items@.len() ==> q.moved(delta).cursor == q.cursor + delta,
        q.cursor + delta < 0 ==> q.moved(delta).cursor == 0,
        q.cursor + delta >= q.items@.len() ==> q.moved(delta).cursor == q.items@.len() - 1,
        q.moved(delta).items == q.items && q.moved(delta).position == q.position,
        q.followed().following,
        q.position < q.items@.len() ==> q.followed().cursor == q.position,
{
}

/// A row is moved only inside the queue, by what is asked.
pub proof fn a_row_is_moved_inside_the_queue(q: Queue, delta: int)
    ensures
        q.spec_swap_target(delta) matches Some(to) ==> 0 <= to < q.items@.len() && to == q.cursor
            + delta,
        q.cursor + delta < 0 || q.cursor + delta >= q.items@.len() ==> q.spec_swap_target(
            delta,
        ) is None,
        0 <= q.cursor + delta < q.items@.len() ==> q.spec_swap_target(delta) is Some,
{
}

/// A list that need not scroll does not, and a list scrolls no further than the
/// cursor makes it.
pub proof fn a_list_scrolls_for_the_cursor_alone(offset: int, cursor: int, len: int, height: int)
    requires
        0 <= offset,
        0 <= cursor < len,
        0 < height,
    ensures
        offset <= cursor < offset + height && offset + height <= len ==> scrolled(
            offset,
            cursor,
            len,
            height,
        ) == offset,
        len <= height ==> scrolled(offset, cursor, len, height) == 0,
        cursor < offset && cursor + height <= len ==> scrolled(offset, cursor, len, height)
            == cursor,
        cursor >= offset + height ==> scrolled(offset, cursor, len, height) == cursor + 1 - height,
{
}

} // verus!
