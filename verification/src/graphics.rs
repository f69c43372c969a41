//! Sprite identifiers and the geometry of the sheet they are cut from.

use vstd::prelude::*;
use crate::math::Vec2;

verus! {

/// The sprites the game draws.
#[derive(Clone, Copy, Debug, PartialEq, Eq, Structural)]
pub enum Image {
    Player,
    PlayerBullet,
    Portrait,
    Bat,
    HellBat,
    Gargoyle,
    Spectre,
    FlyingSkull,
    BossOne,
    BossTwo,
    BossHealthBar,
    RockBullet,
    DarkBullet,
    ColouredBullet,
    Sword,
    Orb,
    BigOrb,
    Explosion1,
    Explosion2,
    Explosion3,
    Explosion4,
    Explosion5,
    Explosion6,
    NightSky,
    Clouds,
    Graveyard,
    Fog,
    Darkness,
}

/// The number of sprites.
pub const IMAGES: u16 = 28;

impl Image {
    /// The position of the sprite in the sheet's table of frames.
    pub open spec fn code(self) -> u16 {
        match self {
            Image::Player => 0,
            Image::PlayerBullet => 1,
            Image::Portrait => 2,
            Image::Bat => 3,
            Image::HellBat => 4,
            Image::Gargoyle => 5,
            Image::Spectre => 6,
            Image::FlyingSkull => 7,
            Image::BossOne => 8,
            Image::BossTwo => 9,
            Image::BossHealthBar => 10,
            Image::RockBullet => 11,
            Image::DarkBullet => 12,
            Image::ColouredBullet => 13,
            Image::Sword => 14,
            Image::Orb => 15,
            Image::BigOrb => 16,
            Image::Explosion1 => 17,
            Image::Explosion2 => 18,
            Image::Explosion3 => 19,
            Image::Explosion4 => 20,
            Image::Explosion5 => 21,
            Image::Explosion6 => 22,
            Image::NightSky => 23,
            Image::Clouds => 24,
            Image::Graveyard => 25,
            Image::Fog => 26,
            Image::Darkness => 27,
        }
    }

    /// The sprite's number.
    pub fn to_u16(self) -> (r: u16)
        ensures
            r == self.code(),
            r < IMAGES,
    {
        match self {
            Image::Player => 0,
            Image::PlayerBullet => 1,
            Image::Portrait => 2,
            Image::Bat => 3,
            Image::HellBat => 4,
            Image::Gargoyle => 5,
            Image::Spectre => 6,
            Image::FlyingSkull => 7,
            Image::BossOne => 8,
            Image::BossTwo => 9,
            Image::BossHealthBar => 10,
            Image::RockBullet => 11,
            Image::DarkBullet => 12,
            Image::ColouredBullet => 13,
            Image::Sword => 14,
            Image::Orb => 15,
            Image::BigOrb => 16,
            Image::Explosion1 => 17,
            Image::Explosion2 => 18,
            Image::Explosion3 => 19,
            Image::Explosion4 => 20,
            Image::Explosion5 => 21,
            Image::Explosion6 => 22,
            Image::NightSky => 23,
            Image::Clouds => 24,
            Image::Graveyard => 25,
            Image::Fog => 26,
            Image::Darkness => 27,
        }
    }

    /// The sprite with the given number, if there is one.
    pub fn from_u16(code: u16) -> (r: Option<Image>)
        ensures
            code < IMAGES <==> r is Some,
            r matches Some(image) ==> image.code() == code,
    {
        match code {
            0 => Some(Image::Player),
            1 => Some(Image::PlayerBullet),
            2 => Some(Image::Portrait),
            3 => Some(Image::Bat),
            4 => Some(Image::HellBat),
            5 => Some(Image::Gargoyle),
            6 => Some(Image::Spectre),
            7 => Some(Image::FlyingSkull),
            8 => Some(Image::BossOne),
            9 => Some(Image::BossTwo),
            10 => Some(Image::BossHealthBar),
            11 => Some(Image::RockBullet),
            12 => Some(Image::DarkBullet),
            13 => Some(Image::ColouredBullet),
            14 => Some(Image::Sword),
            15 => Some(Image::Orb),
            16 => Some(Image::BigOrb),
            17 => Some(Image::Explosion1),
            18 => Some(Image::Explosion2),
            19 => Some(Image::Explosion3),
            20 => Some(Image::Explosion4),
            21 => Some(Image::Explosion5),
            22 => Some(Image::Explosion6),
            23 => Some(Image::NightSky),
            24 => Some(Image::Clouds),
            25 => Some(Image::Graveyard),
            26 => Some(Image::Fog),
            27 => Some(Image::Darkness),
            _ => None,
        }
    }
}

/// The rectangle of the sheet that one sprite is cut from, in pixels.
#[derive(Clone, Copy, Debug, PartialEq, Eq, Structural)]
pub struct Frame {
    pub x: u32,
    pub y: u32,
    pub w: u32,
    pub h: u32,
}

/// The sprite sheet's table of frames, indexed by sprite number, with the
/// sheet's own size. A pixel of a sprite covers one world unit.
pub struct Atlas {
    pub frames: Vec<Frame>,
    pub width: u32,
    pub height: u32,
}

/// The extent of a frame in fixed-point steps: 1024 steps per pixel,
/// saturating.
pub open spec fn frame_size(f: Frame) -> Vec2 {
    Vec2 {
        x: crate::math::saturate(f.w * 1024) as i32,
        y: crate::math::saturate(f.h * 1024) as i32,
    }
}

impl Atlas {
    /// The frame of sprite number `code`; a sprite the sheet does not list
    /// has an empty frame.
    pub open spec fn frame_of(&self, code: u16) -> Frame {
        if (code as int) < self.frames@.len() {
            self.frames@[code as int]
        } else {
            Frame { x: 0, y: 0, w: 0, h: 0 }
        }
    }

    /// The frame of sprite number `code`.
    pub fn coordinates(&self, code: u16) -> (f: Frame)
        ensures
            f == self.frame_of(code),
    {
        if (code as usize) < self.frames.len() {
            self.frames[code as usize]
        } else {
            Frame { x: 0, y: 0, w: 0, h: 0 }
        }
    }

    /// The extent of sprite number `code` in fixed-point steps.
    pub fn size(&self, code: u16) -> (r: Vec2)
        ensures
            r == frame_size(self.frame_of(code)),
    {
        let f = self.coordinates(code);
        Vec2 {
            x: crate::math::narrow(f.w as i64 * 1024),
            y: crate::math::narrow(f.h as i64 * 1024),
        }
    }
}

} // verus!
