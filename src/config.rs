//! Settings that the loading rules read.
use vstd::prelude::*;

use crate::humane_bytes::HumaneBytes;

verus! {

/// The largest files that are opened: archives, and plain or animated images.
#[derive(PartialEq, Eq, Structural, Debug, Clone, Copy)]
pub struct MaxFileSize {
    pub zip: HumaneBytes,
    pub img: HumaneBytes,
}

} // verus!
