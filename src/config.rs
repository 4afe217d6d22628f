use vstd::prelude::*;

verus! {

/// Settings of a browsing session: where the images are, and how many images
/// on each side of the current one are kept ready.
pub struct Config {
    pub path: String,
    pub preload: usize,
}

} // verus!
