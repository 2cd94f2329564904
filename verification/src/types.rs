//! The typed records that EasyEDA components are read into.
//!
//! Geometry is kept in a type parameter: its coordinates are floating-point
//! and are handled by the program, while the library owns everything else.

use vstd::prelude::*;

verus! {

/// The electrical type of a symbol pin, as EasyEDA numbers it.
#[derive(Debug, Clone, Copy, PartialEq, Eq)]
pub enum EePinElectrical {
    Unspecified,
    Input,
    Output,
    Bidirectional,
    Power,
}

impl EePinElectrical {
    /// The electrical type with EasyEDA's number `v`; any number other than
    /// 1 to 4 is `Unspecified`.
    pub fn from_int(v: i64) -> (r: Self)
        ensures
            r == (if v == 1 {
                EePinElectrical::Input
            } else if v == 2 {
                EePinElectrical::Output
            } else if v == 3 {
                EePinElectrical::Bidirectional
            } else if v == 4 {
                EePinElectrical::Power
            } else {
                EePinElectrical::Unspecified
            }),
    {
        match v {
            1 => EePinElectrical::Input,
            2 => EePinElectrical::Output,
            3 => EePinElectrical::Bidirectional,
            4 => EePinElectrical::Power,
            _ => EePinElectrical::Unspecified,
        }
    }
}

/// The descriptive fields of a symbol.
#[derive(Debug, Default)]
pub struct EeSymbolInfo {
    pub name: String,
    pub prefix: String,
    pub package: String,
    pub manufacturer: String,
    pub mpn: String,
    pub datasheet: String,
    pub lcsc_id: String,
    pub keywords: String,
    pub description: String,
}

/// A symbol arc, kept as its SVG path `M sx sy A rx ry rot large sweep ex ey`.
#[derive(Debug, Default)]
pub struct EeSymbolArc {
    pub raw_path: String,
}

/// A symbol unit: its description, its geometry and, for a multi-unit
/// component, the further units.
#[derive(Debug)]
pub struct EeSymbol<G> {
    pub info: EeSymbolInfo,
    pub geometry: G,
    pub sub_symbols: Vec<EeSymbol<G>>,
}

/// The descriptive fields of a footprint.
#[derive(Debug, Default)]
pub struct EeFootprintInfo {
    pub name: String,
    /// `"smd"` or `"tht"`.
    pub fp_type: String,
    pub model_3d_uuid: String,
    pub manufacturer: String,
    pub mpn: String,
    pub lcsc_id: String,
    pub description: String,
}

/// A filled region of a footprint.
#[derive(Debug, Default)]
pub struct EeFootprintSolidRegion {
    pub layer_id: i32,
    pub raw_path: String,
    /// `"solid"`, `"cutout"` or `"npth"`.
    pub region_type: String,
}

/// A footprint: its description and its geometry.
#[derive(Debug)]
pub struct EeFootprint<G> {
    pub info: EeFootprintInfo,
    pub geometry: G,
}

} // verus!
