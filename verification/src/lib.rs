//! Reading, writing and validating optical spectral data files: the
//! verified text layer of the JSON, CSV/TSV and SpectraShop formats.
use vstd::prelude::*;

pub mod text;
pub mod number;
pub mod model;
pub mod fields;
pub mod date;
pub mod csv_text;
pub mod ss_text;
pub mod spectrashop;
pub mod schema;
pub mod cross;

verus! {
} // verus!
pub mod round_trip;
