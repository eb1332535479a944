//! Display colours attached to entities.

use vstd::prelude::*;

verus! {

/// A 24-bit colour.
#[derive(Clone, Copy, Debug, PartialEq, Eq, Structural)]
pub struct Color {
    pub r: u8,
    pub g: u8,
    pub b: u8,
}

/// The colour of remains.
pub open spec fn spec_dark_red() -> Color {
    Color { r: 191, g: 0, b: 0 }
}

/// The colour of remains.
#[verifier::when_used_as_spec(spec_dark_red)]
pub fn dark_red() -> (c: Color)
    ensures
        c == spec_dark_red(),
{
    Color { r: 191, g: 0, b: 0 }
}

/// The colour of the weaker monster.
pub open spec fn spec_desaturated_green() -> Color {
    Color { r: 63, g: 127, b: 63 }
}

/// The colour of the weaker monster.
#[verifier::when_used_as_spec(spec_desaturated_green)]
pub fn desaturated_green() -> (c: Color)
    ensures
        c == spec_desaturated_green(),
{
    Color { r: 63, g: 127, b: 63 }
}

/// The colour of the stronger monster.
pub open spec fn spec_darker_green() -> Color {
    Color { r: 0, g: 127, b: 0 }
}

/// The colour of the stronger monster.
#[verifier::when_used_as_spec(spec_darker_green)]
pub fn darker_green() -> (c: Color)
    ensures
        c == spec_darker_green(),
{
    Color { r: 0, g: 127, b: 0 }
}

/// The colour of a healing potion.
pub open spec fn spec_violet() -> Color {
    Color { r: 127, g: 0, b: 255 }
}

/// The colour of a healing potion.
#[verifier::when_used_as_spec(spec_violet)]
pub fn violet() -> (c: Color)
    ensures
        c == spec_violet(),
{
    Color { r: 127, g: 0, b: 255 }
}

} // verus!
