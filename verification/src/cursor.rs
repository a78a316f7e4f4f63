//! The crosshair that follows the mouse, and the readout of where it points.

use vstd::prelude::*;
use crate::coordinate::PixelCoordinate2D;

verus! {

/// The crosshair under the mouse. It holds nothing: where it stands is
/// asked of the window each time it is drawn.
#[derive(Clone, Copy, Debug, PartialEq, Eq, Structural)]
pub struct Cursor;

/// A crosshair that snaps to the curve under the mouse.
pub type SnappingCursor = Cursor;

/// The unit in which a readout tells the mouse position.
#[derive(Clone, Copy, Debug, PartialEq, Eq, Structural)]
pub enum ReadoutType {
    /// In the units of the axes.
    Cartesian,
    /// In pixels of the window.
    Pixel,
}

/// A line of text that tells where the mouse points.
#[derive(Clone, Copy, Debug, PartialEq, Eq, Structural)]
pub struct CursorReadout {
    position: PixelCoordinate2D,
    readout_type: ReadoutType,
}

impl CursorReadout {
    /// Where the text stands.
    pub closed spec fn spec_position(&self) -> PixelCoordinate2D {
        self.position
    }

    /// The unit of the text.
    pub closed spec fn spec_readout_type(&self) -> ReadoutType {
        self.readout_type
    }

    /// A readout that stands at `position` and tells the mouse position in
    /// the unit `readout_type`.
    pub fn new(position: PixelCoordinate2D, readout_type: ReadoutType) -> (r: CursorReadout)
        ensures
            r.spec_position() == position,
            r.spec_readout_type() == readout_type,
    {
        CursorReadout { position, readout_type }
    }

    /// Where the text stands.
    #[verifier::when_used_as_spec(spec_position)]
    pub fn position(&self) -> (p: PixelCoordinate2D)
        ensures
            p == self.spec_position(),
    {
        self.position
    }

    /// The unit of the text.
    #[verifier::when_used_as_spec(spec_readout_type)]
    pub fn readout_type(&self) -> (t: ReadoutType)
        ensures
            t == self.spec_readout_type(),
    {
        self.readout_type
    }
}

} // verus!
