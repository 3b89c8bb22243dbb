//! The names of the colour schemes a density image can be drawn with, and
//! the numeric codes by which a host picks one.
use vstd::prelude::*;

verus! {

/// A colour scheme; the colours themselves belong to the palette.
#[derive(PartialEq, Eq, Structural, Clone, Copy, Debug, Hash)]
pub enum ColorScheme {
    Fire,
    Jet,
    Prism,
    Turbo,
    ColorWheel,
    GnuPlot,
    Bmy,
    Plasma,
    Inferno,
    Viridis,
    Neon,
    Pastel,
    Magma,
    Cividis,
    Gray,
    Cubehelix,
    BlueOrange,
    Heat,
    Ice,
    WhiteFire,
    WhiteHeat,
    WhiteBlue,
    WhiteViridis,
    WhiteMagma,
}

/// The scheme of a numeric code: 0 to 6 name Magma, Plasma, Inferno,
/// Viridis, Cividis, GnuPlot and Bmy; any other code means Inferno.
pub open spec fn scheme_of_code(code: i32) -> ColorScheme {
    if code == 0 {
        ColorScheme::Magma
    } else if code == 1 {
        ColorScheme::Plasma
    } else if code == 3 {
        ColorScheme::Viridis
    } else if code == 4 {
        ColorScheme::Cividis
    } else if code == 5 {
        ColorScheme::GnuPlot
    } else if code == 6 {
        ColorScheme::Bmy
    } else {
        ColorScheme::Inferno
    }
}

impl From<i32> for ColorScheme {
    fn from(code: i32) -> (r: ColorScheme) {
        match code {
            0 => ColorScheme::Magma,
            1 => ColorScheme::Plasma,
            2 => ColorScheme::Inferno,
            3 => ColorScheme::Viridis,
            4 => ColorScheme::Cividis,
            5 => ColorScheme::GnuPlot,
            6 => ColorScheme::Bmy,
            _ => ColorScheme::Inferno,
        }
    }
}

impl vstd::std_specs::convert::FromSpecImpl<i32> for ColorScheme {
    open spec fn obeys_from_spec() -> bool {
        true
    }

    open spec fn from_spec(code: i32) -> ColorScheme {
        scheme_of_code(code)
    }
}

} // verus!
