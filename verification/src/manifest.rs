//! Rows of a model weight manifest.

use vstd::prelude::*;

verus! {

/// One tensor of a weight manifest.
#[derive(Debug, Clone)]
pub struct TensorMetadataRow {
    pub id: String,
    /// Identifier of the weight file the tensor belongs to.
    pub weight_id: String,
    pub tensor_name: String,
    /// Shape, as text.
    pub shape: String,
    /// Dtype name.
    pub dtype: String,
    pub size_bytes: i64,
    pub checksum: String,
}

} // verus!
