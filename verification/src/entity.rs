//! What the core shows of each visible thing: a plain description value
//! that a renderer can draw without knowing the thing itself.

use vstd::prelude::*;

use crate::math::{IntVec2, Vector2};

verus! {

/// A tint, each channel in thousandths of full intensity.
#[derive(Clone, Copy, Debug, PartialEq, Eq, Structural)]
pub struct Color {
    pub red: u16,
    pub green: u16,
    pub blue: u16,
}

impl Color {
    /// The tint that leaves a sprite as it is.
    pub open spec fn white() -> Color {
        Color { red: 1000, green: 1000, blue: 1000 }
    }
}

/// The picture that stands for an entity.
#[derive(Clone, Copy, Debug, PartialEq, Eq, Structural)]
pub enum Sprite {
    Ball,
    Paddle,
    Block,
    BlockSolid,
}

/// The key under which a renderer keeps the picture of a sprite.
pub open spec fn sprite_name(sprite: Sprite) -> Seq<char> {
    match sprite {
        Sprite::Ball => "ball"@,
        Sprite::Paddle => "paddle"@,
        Sprite::Block => "block"@,
        Sprite::BlockSolid => "block_solid"@,
    }
}

impl Sprite {
    /// The key under which a renderer keeps this sprite's picture.
    pub fn name(self) -> (key: &'static str)
        ensures
            key@ == sprite_name(self),
    {
        match self {
            Sprite::Ball => "ball",
            Sprite::Paddle => "paddle",
            Sprite::Block => "block",
            Sprite::BlockSolid => "block_solid",
        }
    }
}

/// The kinds of thing that can be drawn.
#[derive(Clone, Copy, Debug, PartialEq, Eq, Structural)]
pub enum EntityKind {
    Ball,
    Paddle,
    Brick,
}

/// All that a renderer needs to draw one entity.
#[derive(Clone, Copy, Debug, PartialEq, Eq, Structural)]
pub struct Drawable {
    pub kind: EntityKind,
    pub sprite: Sprite,
    pub position: Vector2,
    pub size: Vector2,
    pub color: Color,
}

/// Whether `d` is the description of an entity of the given kind,
/// picture, place, extent and tint.
pub open spec fn describes(
    d: Drawable,
    kind: EntityKind,
    sprite: Sprite,
    position: IntVec2,
    size: IntVec2,
    color: Color,
) -> bool {
    &&& d.kind == kind
    &&& d.sprite == sprite
    &&& d.position@ == position
    &&& d.size@ == size
    &&& d.color == color
}

} // verus!
