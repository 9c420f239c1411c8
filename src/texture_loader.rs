//! Where textures are looked up.
use vstd::prelude::*;

verus! {

/// Finds textures under an assets directory.
pub struct TextureLoader {
    pub assets_path: String,
}

impl TextureLoader {
    pub fn new(assets_path: String) -> (r: TextureLoader)
        ensures
            r.assets_path@ == assets_path@,
    {
        TextureLoader { assets_path }
    }
}

} // verus!
