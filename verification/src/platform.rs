//! The host operating systems that behaviour differs between.
use vstd::prelude::*;

verus! {

#[derive(Clone, Copy, Debug, PartialEq, Eq, Structural)]
pub enum HostPlatform {
    Linux,
    Macos,
    Windows,
}

} // verus!
