//! Drawing primitives carried over the wire and stored in a room's log.
//!
//! The engine never interprets geometry or color: it stores figures and
//! forwards them verbatim. Coordinates and color channels therefore appear
//! here as the raw bit patterns of the IEEE 754 numbers used on the wire
//! (64-bit for coordinates, 32-bit for the 0.0–1.0 color intensities);
//! the host converts at the boundary. Two figures are the same exactly
//! when their bit patterns agree.

use vstd::prelude::*;

verus! {

/// An RGBA color; each channel holds the bit pattern of a 32-bit float.
#[derive(Clone, Copy, Debug, PartialEq, Eq, Structural)]
pub struct Color {
    pub r: u32,
    pub g: u32,
    pub b: u32,
    pub a: u32,
}

/// A straight line segment; each coordinate holds the bit pattern of a
/// 64-bit float.
#[derive(Clone, Copy, Debug, PartialEq, Eq, Structural)]
pub struct LineData {
    pub start_x: u64,
    pub start_y: u64,
    pub end_x: u64,
    pub end_y: u64,
    pub color: Color,
}

/// One immutable drawing primitive: a closed sum over the supported
/// shapes, currently only straight lines.
#[derive(Clone, Copy, Debug, PartialEq, Eq, Structural)]
pub enum FigureData {
    Line(LineData),
}

} // verus!
