//! What a client is told when it joins.
use vstd::prelude::*;

verus! {

/// The request paths of the assets a client loads.
#[derive(Debug, Clone)]
pub struct AssetPaths {
    pub tileset: String,
    pub charset: String,
    pub font: String,
    pub font_meta: String,
}

} // verus!
