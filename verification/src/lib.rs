//! Parts for modular LED video walls: control cards, display units, the
//! cheapest card type that drives a given tiling, and the tiling that fits a
//! requested screen size.
pub mod materials;
