//! Mixing two primary colours of paint into a secondary colour.

use vstd::prelude::*;

verus! {

/// The three primary colours of the RYB model.
#[derive(Debug, Clone, Copy, PartialEq, Eq, Structural)]
pub enum PrimaryColor {
    Red,
    Yellow,
    Blue,
}

/// The colours obtained by mixing two different primary colours.
#[derive(Debug, Clone, Copy, PartialEq, Eq, Structural)]
pub enum SecondaryColor {
    Orange,
    Green,
    Purple,
}

/// The secondary colour that two primary colours make, if they differ.
pub open spec fn mixed(c1: PrimaryColor, c2: PrimaryColor) -> Option<SecondaryColor> {
    if c1 == c2 {
        None
    } else if c1 != PrimaryColor::Blue && c2 != PrimaryColor::Blue {
        Some(SecondaryColor::Orange)
    } else if c1 != PrimaryColor::Red && c2 != PrimaryColor::Red {
        Some(SecondaryColor::Green)
    } else {
        Some(SecondaryColor::Purple)
    }
}

/// Mixes two primary colours: red and yellow make orange, yellow and blue
/// make green, red and blue make purple; a colour mixed with itself makes
/// no secondary colour.
pub fn mix(c1: PrimaryColor, c2: PrimaryColor) -> (r: Option<SecondaryColor>)
    ensures
        r == mixed(c1, c2),
{
    match c1 {
        PrimaryColor::Red => match c2 {
            PrimaryColor::Yellow => Some(SecondaryColor::Orange),
            PrimaryColor::Blue => Some(SecondaryColor::Purple),
            _ => None,
        },
        PrimaryColor::Yellow => match c2 {
            PrimaryColor::Red => Some(SecondaryColor::Orange),
            PrimaryColor::Blue => Some(SecondaryColor::Green),
            _ => None,
        },
        PrimaryColor::Blue => match c2 {
            PrimaryColor::Red => Some(SecondaryColor::Purple),
            PrimaryColor::Yellow => Some(SecondaryColor::Green),
            _ => None,
        },
    }
}

/// Mixing is symmetric: the order of the two colours does not matter.
pub proof fn lemma_mix_symmetric(c1: PrimaryColor, c2: PrimaryColor)
    ensures
        mixed(c1, c2) == mixed(c2, c1),
{
}

} // verus!
