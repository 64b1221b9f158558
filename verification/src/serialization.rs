//! Assembly of the module matrix: the blank canvas with its functional
//! patterns, the placement of the codewords, and the format and version
//! information.
use vstd::prelude::*;

pub mod canvas;
pub mod counting;
pub mod format;
pub mod masking;
pub mod patterns;
pub mod placement;

pub use canvas::{Canvas, Module};
pub use format::{compute_format_info_bits, insert_format_info, insert_version_info};
pub use masking::{apply_best_mask, apply_mask, get_masking_function, MaskPattern};
pub use patterns::{
    create_alignment_pattern, create_alignment_pattern_coord_list, create_finder_pattern,
    create_micro_qr_canvas, create_qr_canvas, create_standard_qt_canvas,
    get_alignment_pattern_points,
};
pub use placement::insert_data_payload;

verus! {

} // verus!
