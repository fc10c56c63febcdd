//! Lowering of flat Sequence values onto the per-cycle, per-lane grid that a
//! Space-Time type describes.
use vstd::prelude::*;

pub mod chars;
pub mod error;
pub mod sequence;
pub mod space_time;
pub mod stencil;

verus! {

/// Where a conversion reads its inputs and writes its outputs.
#[derive(Debug, PartialEq)]
pub struct Config {
    pub sequence_values_proto_path: String,
    pub space_time_type_proto_path: String,
    pub output_values_csv_path: String,
    pub output_valids_csv_path: String,
}

} // verus!
