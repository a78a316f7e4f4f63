//! Where and how each value of a snapshot is drawn: one upright bar per
//! value, side by side, standing on a line near the bottom of the window.

use vstd::prelude::*;
use crate::config::WINDOW_HEIGHT;
use crate::coordinate::PixelCoordinate2D;
use crate::dataset::ELEMENT_MAX;
use crate::metrics::Metrics;
use crate::model::SortType;

verus! {

/// Free space around the row of bars, in pixels.
pub const PADDING: u32 = 10;

/// Free space between two bars, in pixels.
pub const ELEMENT_PADDING: u32 = 3;

/// Width of one bar, in pixels.
pub const ELEMENT_WIDTH: u32 = 15;

/// The largest number of bars whose positions fit the pixel grid.
pub const MAX_BARS: usize = 119304647;

/// What a bar's colour tells.
#[derive(Clone, Copy, Debug, PartialEq, Eq, Structural)]
pub enum BarState {
    /// The run is complete and the values are in order.
    Correct,
    /// The run is complete and the values are not in order.
    Incorrect,
    /// The value is under comparison.
    Active,
    /// The cursor of the insertion sort stands on the value.
    Cursor,
    /// Nothing is happening to the value.
    Idle,
}

/// One bar: its top-left corner, its size and its state.
#[derive(Clone, Copy, Debug, PartialEq, Eq, Structural)]
pub struct Bar {
    pub position: PixelCoordinate2D,
    pub width: u32,
    pub height: u32,
    pub state: BarState,
}

/// Number of bars that fit side by side into `width` pixels.
pub open spec fn slots(width: nat) -> nat {
    if width + ELEMENT_PADDING >= 2 * PADDING {
        ((width + ELEMENT_PADDING - 2 * PADDING) / ((ELEMENT_WIDTH + ELEMENT_PADDING) as int)) as nat
    } else {
        0
    }
}

/// Left edge of the bar at position `i`.
pub open spec fn bar_x(i: int) -> int {
    i * (ELEMENT_WIDTH + ELEMENT_PADDING) + PADDING
}

/// Top edge of a bar of height `value`.
pub open spec fn bar_y(value: u32) -> int {
    WINDOW_HEIGHT - value - PADDING
}

/// Number of values to show in a window `width` pixels wide: as many bars
/// as fit side by side, none where not even the padding fits.
pub fn element_count_for_width(width: u32) -> (count: u32)
    ensures
        count == slots(width as nat),
{
    if width >= 2 * PADDING - ELEMENT_PADDING {
        (width - (2 * PADDING - ELEMENT_PADDING)) / (ELEMENT_WIDTH + ELEMENT_PADDING)
    } else {
        0
    }
}

/// Left edge, in pixels, of the bar with the given number.
pub fn element_number_to_pixel_x(element_number: u32) -> (x: i32)
    requires
        element_number < MAX_BARS,
    ensures
        x == bar_x(element_number as int),
{
    let pitch: u32 = ELEMENT_WIDTH + ELEMENT_PADDING;
    assert(element_number * pitch == element_number * 18);
    (element_number * pitch + PADDING) as i32
}

impl Metrics {
    /// The state of the bar at position `i`: completion outranks activity,
    /// activity outranks the cursor, and the cursor shows only under the
    /// insertion sort and never at position `0`.
    pub open spec fn bar_state(&self, i: int) -> BarState {
        if self.sorted && self.correct {
            BarState::Correct
        } else if self.sorted {
            BarState::Incorrect
        } else if self.active_elements@.contains(i as usize) {
            BarState::Active
        } else if self.index == i && i != 0 && self.sort_type == SortType::Insertion {
            BarState::Cursor
        } else {
            BarState::Idle
        }
    }

    /// The line below the counters once a run is complete, none before.
    pub open spec fn verdict_text(&self) -> Option<Seq<char>> {
        if !self.sorted {
            None
        } else if self.correct {
            Some("Sorted!"@)
        } else {
            Some("Not Sorted :("@)
        }
    }

    /// Whether position `i` is under comparison.
    pub fn is_active(&self, i: usize) -> (b: bool)
        ensures
            b == self.active_elements@.contains(i),
    {
        let mut k: usize = 0;
        while k < self.active_elements.len()
            invariant
                k <= self.active_elements@.len(),
                forall|j: int| 0 <= j < k ==> self.active_elements@[j] != i,
            decreases self.active_elements@.len() - k,
        {
            if self.active_elements[k] == i {
                return true;
            }
            k = k + 1;
        }
        false
    }

    /// The state of the bar at position `i`.
    pub fn bar_state_at(&self, i: usize) -> (state: BarState)
        ensures
            state == self.bar_state(i as int),
    {
        if self.sorted && self.correct {
            BarState::Correct
        } else if self.sorted {
            BarState::Incorrect
        } else if self.is_active(i) {
            BarState::Active
        } else if self.index == i && i != 0 && self.sort_type == SortType::Insertion {
            BarState::Cursor
        } else {
            BarState::Idle
        }
    }

    /// One bar for every value, in order of position.
    pub fn bars(&self) -> (bars: Vec<Bar>)
        requires
            self.wf(),
            self.elements@.len() <= MAX_BARS,
        ensures
            bars@.len() == self.elements@.len(),
            forall|i: int|
                0 <= i < bars@.len() ==> {
                    &&& (#[trigger] bars@[i]).position.x == bar_x(i)
                    &&& bars@[i].position.y == bar_y(self.elements@[i].1)
                    &&& bars@[i].width == ELEMENT_WIDTH
                    &&& bars@[i].height == self.elements@[i].1
                    &&& bars@[i].state == self.bar_state(i)
                },
    {
        let mut bars: Vec<Bar> = Vec::new();
        let mut i: usize = 0;
        while i < self.elements.len()
            invariant
                self.wf(),
                self.elements@.len() <= MAX_BARS,
                i <= self.elements@.len(),
                bars@.len() == i,
                forall|k: int|
                    0 <= k < i ==> {
                        &&& (#[trigger] bars@[k]).position.x == bar_x(k)
                        &&& bars@[k].position.y == bar_y(self.elements@[k].1)
                        &&& bars@[k].width == ELEMENT_WIDTH
                        &&& bars@[k].height == self.elements@[k].1
                        &&& bars@[k].state == self.bar_state(k)
                    },
            decreases self.elements@.len() - i,
        {
            let value = self.elements[i].1;
            let x = element_number_to_pixel_x(i as u32);
            let y = (WINDOW_HEIGHT - value - PADDING) as i32;
            bars.push(
                Bar {
                    position: PixelCoordinate2D::new(x, y),
                    width: ELEMENT_WIDTH,
                    height: value,
                    state: self.bar_state_at(i),
                },
            );
            i = i + 1;
        }
        bars
    }

    /// One bar for every value, or nothing where the snapshot is not
    /// well-formed or holds more than [`MAX_BARS`] values.
    pub fn try_bars(&self) -> (r: Option<Vec<Bar>>)
        ensures
            r is Some <==> self.wf() && self.elements@.len() <= MAX_BARS,
            r matches Some(bars) ==> {
                &&& bars@.len() == self.elements@.len()
                &&& forall|i: int|
                    0 <= i < bars@.len() ==> {
                        &&& (#[trigger] bars@[i]).position.x == bar_x(i)
                        &&& bars@[i].position.y == bar_y(self.elements@[i].1)
                        &&& bars@[i].width == ELEMENT_WIDTH
                        &&& bars@[i].height == self.elements@[i].1
                        &&& bars@[i].state == self.bar_state(i)
                    }
            },
    {
        if self.elements.len() > MAX_BARS {
            return None;
        }
        let mut i: usize = 0;
        while i < self.elements.len()
            invariant
                i <= self.elements@.len(),
                forall|k: int|
                    0 <= k < i ==> (#[trigger] self.elements@[k]).0 == k && self.elements@[k].1
                        < ELEMENT_MAX,
            decreases self.elements@.len() - i,
        {
            if self.elements[i].0 != i || self.elements[i].1 >= ELEMENT_MAX {
                return None;
            }
            i = i + 1;
        }
        Some(self.bars())
    }

    /// The line below the counters once a run is complete, none before.
    pub fn verdict(&self) -> (text: Option<&'static str>)
        ensures
            match text {
                Some(t) => self.verdict_text() == Some(t@),
                None => self.verdict_text() is None,
            },
    {
        if !self.sorted {
            None
        } else if self.correct {
            Some("Sorted!")
        } else {
            Some("Not Sorted :(")
        }
    }
}

} // verus!
