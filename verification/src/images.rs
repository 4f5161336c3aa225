use vstd::prelude::*;

verus! {

/// Where the server keeps the images it serves (nothing is cached yet).
#[derive(Clone, Default)]
pub struct ImageStore(ImageStoreI);

#[derive(Default, Copy, Clone)]
struct ImageStoreI {}

} // verus!
