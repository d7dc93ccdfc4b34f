//! Feed variants and their field maps.
//!
//! Upstream payloads are positional: a record is an ordered list of strings,
//! and which position holds which measurement differs between the three
//! known feed shapes. A field map names, per feed variant, the position of
//! the time label and of each measurement; a position a feed does not carry
//! is simply absent, so adding a feed shape is a data change, not a code
//! change.

use vstd::prelude::*;

verus! {

/// One of the known upstream payload shapes.
#[derive(Clone, Copy, PartialEq, Eq, Structural, Debug)]
pub enum FeedVariant {
    /// The magnetic-field feed: time label, three field components, two
    /// angles, then the field magnitude.
    Magnetic,
    /// The plasma feed: time label, density, speed, temperature.
    Plasma,
    /// The combined propagated solar-wind feed: time label, the plasma
    /// measurements, then the field components and magnitude.
    Combined,
}

/// Which positional index of a raw record maps to which row attribute.
#[derive(Clone, Copy, Debug)]
pub struct FieldMap {
    /// Position of the textual timestamp; a record too short to hold it is
    /// rejected.
    pub time_label: usize,
    /// Position of the plasma speed, if the feed carries it.
    pub speed: Option<usize>,
    /// Position of the plasma density, if the feed carries it.
    pub density: Option<usize>,
    /// Position of the plasma temperature, if the feed carries it.
    pub temperature: Option<usize>,
    /// Position of the magnetic-field magnitude, if the feed carries it.
    pub bt: Option<usize>,
    /// Position of the field component along the sought axis, if the feed
    /// carries it.
    pub bz: Option<usize>,
}

impl FeedVariant {
    /// The field map of this feed variant.
    pub open spec fn spec_field_map(self) -> FieldMap {
        match self {
            FeedVariant::Magnetic => FieldMap {
                time_label: 0,
                speed: None,
                density: None,
                temperature: None,
                bt: Some(6),
                bz: Some(3),
            },
            FeedVariant::Plasma => FieldMap {
                time_label: 0,
                speed: Some(2),
                density: Some(1),
                temperature: Some(3),
                bt: None,
                bz: None,
            },
            FeedVariant::Combined => FieldMap {
                time_label: 0,
                speed: Some(1),
                density: Some(2),
                temperature: Some(3),
                bt: Some(7),
                bz: Some(6),
            },
        }
    }

    /// Builds the field map of this feed variant.
    pub fn field_map(self) -> (m: FieldMap)
        ensures
            m == self.spec_field_map(),
    {
        match self {
            FeedVariant::Magnetic => FieldMap {
                time_label: 0,
                speed: None,
                density: None,
                temperature: None,
                bt: Some(6),
                bz: Some(3),
            },
            FeedVariant::Plasma => FieldMap {
                time_label: 0,
                speed: Some(2),
                density: Some(1),
                temperature: Some(3),
                bt: None,
                bz: None,
            },
            FeedVariant::Combined => FieldMap {
                time_label: 0,
                speed: Some(1),
                density: Some(2),
                temperature: Some(3),
                bt: Some(7),
                bz: Some(6),
            },
        }
    }
}

} // verus!
