//! The drawing sink the simulator drives.
//!
//! The machine reports its tool path through this two-method contract;
//! implementations own their own state, are consulted for nothing, and
//! may degrade to a no-op.

use vstd::prelude::*;
use crate::types::Micrometer;

verus! {

/// The turning sense of an arc.
#[derive(Clone, Copy, PartialEq, Eq, Structural, Debug)]
pub enum Circle {
    /// Clockwise.
    Cw,
    /// Counter-clockwise.
    Ccw,
}

/// The kind of a straight segment.
#[derive(Clone, Copy, PartialEq, Eq, Structural, Debug)]
pub enum Line {
    /// A rapid, non-cutting traverse.
    Fast,
    /// A cutting move.
    Cut,
}

/// An externally supplied drawing sink.
pub trait Render {
    /// A straight segment of the given kind to `point` at height
    /// `height`, drawn with a tool of the given diameter.
    fn line_to(
        &mut self,
        tool: Micrometer,
        ty: Line,
        point: (Micrometer, Micrometer),
        height: Micrometer,
    );

    /// An arc of the given sense around `center` to `end`, drawn with a
    /// tool of the given diameter.
    fn arc_to(
        &mut self,
        tool: Micrometer,
        ty: Circle,
        center: (Micrometer, Micrometer),
        end: (Micrometer, Micrometer),
    );
}

} // verus!
