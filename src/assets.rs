//! Identifiers of the sounds, sprites and particle effects that the core asks
//! the host to play or draw. The core never looks inside them.
use vstd::prelude::*;

verus! {

#[derive(Clone, Copy, Debug, PartialEq, Eq, Structural)]
pub enum Sound {
    BiteImpact,
    BiteSwing,
    MarkTriggered,
    StaffImpact,
    StaffSwing,
}

#[derive(Clone, Copy, Debug, PartialEq, Eq, Structural)]
pub enum SpriteAsset {
    Bite,
    Potion,
}

#[derive(Clone, Copy, Debug, PartialEq, Eq, Structural)]
pub enum Effect {
    ApplyMark,
    Mark,
    Trigger,
}

} // verus!
