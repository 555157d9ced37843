//! Reset-module text.
//!
//! The reset module only pins the reset vector entry; generation of the
//! startup routine that copies load-address sections into their run
//! addresses is deliberately not part of this crate.

use crate::{LinkerScript, Word};
use vstd::prelude::*;

verus! {

pub const RESET_TEXT: &'static str = "#[doc(Hidden)]\n#[link_section = \".vector_table.reset_vector\"]\n#[no_mangle]\npub static __RESET_VECTOR: unsafe extern \"C\" fn() -> ! = Reset;\n";

/// The generated reset-module text.
pub open spec fn spec_reset_text() -> Seq<char> {
    RESET_TEXT@
}

/// Generate a reset module from a LinkerScript
pub fn render<W: Word>(_linker_script: &LinkerScript<W>) -> (r: String)
    ensures
        r@ == spec_reset_text(),
{
    String::from_str(RESET_TEXT)
}

} // verus!
