use vstd::prelude::*;

verus! {

/// A tree of files served verbatim, rooted at a base directory.
pub struct StaticContent {
    pub base_path: String,
}

impl StaticContent {
    /// Serves the files under `path`.
    pub fn load(path: &str) -> (r: StaticContent)
        ensures
            r.base_path@ == path@,
    {
        StaticContent { base_path: path.to_owned() }
    }
}

} // verus!
