//! The object interfaces a game built on this terrain exposes: markers for
//! world entities and the text-mode rendering capability.

use vstd::prelude::*;

verus! {

use crate::terrain::Rgb;

/// Anything that lives in the game world.
pub trait GameObject {

}

/// An object that can draw itself as a glyph with a color pair.
pub trait VisibleGameObject: GameObject {
    /// The glyph, foreground and background this object is drawn with.
    fn render_cursive(&self) -> (char, Rgb, Rgb);
}

/// An object that takes part in collision and movement.
pub trait PhysicalGameObject: GameObject {

}

/// A visible object that lies on the ground layer.
pub trait GroundObject: VisibleGameObject {

}

} // verus!
