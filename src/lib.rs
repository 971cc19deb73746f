//! Turns a remote icon manifest into generated Rust source, with a content
//! checked local cache: identifier naming, integrity checks, batched fetch
//! scheduling and snippet emission.
use vstd::prelude::*;

pub mod ident;
pub mod integrity;
pub mod pipeline;
pub mod pool;
pub mod snippet;
pub mod text;

verus! {

/// What every generated icon type offers.
pub trait LucideIcon {
    /// The icon's SVG markup, verbatim.
    fn to_svg(&self) -> String;
}

} // verus!
