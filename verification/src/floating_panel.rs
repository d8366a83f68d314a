//! Which panels the floating reveal carries, and when it exists at all.

use vstd::prelude::*;

verus! {

/// Which panels the floating window carries this time.
#[derive(Clone, Copy, Debug, PartialEq, Eq, Default)]
pub struct FloatingRevealContent {
    pub sidebar: bool,
    pub agents_column: bool,
}

} // verus!
