use vstd::prelude::*;

verus! {

/// The terminal colour type of crossterm, declared with its variants so that
/// the colour constants of this library can be named in contracts.
#[verifier::external_type_specification]
pub struct ExColor(crossterm::style::Color);

} // verus!
