use vstd::prelude::*;
use crate::handle::Handle;

verus! {

// Positions are held in thousandths of a pixel, rotations in millionths of a
// radian; texture coordinates, sizes and origins in whole pixels.

/// Where a sprite is drawn: its top left corner, in thousandths of a pixel.
#[derive(Debug, Copy, Clone, PartialEq, Eq, Structural)]
pub struct SpriteXY(pub i32, pub i32);

/// The top left corner of a sprite's texture rectangle, in texels.
#[derive(Debug, Copy, Clone, PartialEq, Eq, Structural)]
pub struct SpriteUV(pub i32, pub i32);

/// A sprite's width and height, in pixels.
#[derive(Debug, Copy, Clone, PartialEq, Eq, Structural)]
pub struct SpriteWH(pub i32, pub i32);

/// A sprite's rotation (millionths of a radian) and the local origin it
/// rotates about (pixels).
#[derive(Debug, Copy, Clone, PartialEq, Eq, Structural)]
pub struct SpriteR(pub i32, pub i32, pub i32);

/// The physics body that drives an entity.
#[derive(Debug, Copy, Clone, PartialEq, Eq, Structural)]
pub struct PhysicsBody(pub Handle);

/// The physics collider that gives an entity its shape.
#[derive(Debug, Copy, Clone, PartialEq, Eq, Structural)]
pub struct PhysicsCollider(pub Handle);

/// The sprite follows the physics body.
#[derive(Debug, Copy, Clone, PartialEq, Eq, Structural)]
pub struct SyncSpriteToPhysics;

/// Hit points.
#[derive(Debug, Copy, Clone, PartialEq, Eq, Structural)]
pub struct HP(pub u8);

/// Loses a hit point for each cursor destroy point inside its collider.
#[derive(Debug, Copy, Clone, PartialEq, Eq, Structural)]
pub struct TakeCursorDamage;

/// Destroyed once its hit points reach zero.
#[derive(Debug, Copy, Clone, PartialEq, Eq, Structural)]
pub struct KillUpon0HP;

/// Texture corner shown when the left mouse button goes up.
#[derive(Debug, Copy, Clone, PartialEq, Eq, Structural)]
pub struct SetUVOnLMBUp(pub i32, pub i32);

/// Texture corner shown when the left mouse button goes down.
#[derive(Debug, Copy, Clone, PartialEq, Eq, Structural)]
pub struct SetUVOnLMBDown(pub i32, pub i32);

/// The sprite follows the cursor, snapped to the play-field grid.
#[derive(Debug, Copy, Clone, PartialEq, Eq, Structural)]
pub struct CursorSnapSpriteToGrid;

/// Emits a destroy point at the cursor when the left button goes down.
#[derive(Debug, Copy, Clone, PartialEq, Eq, Structural)]
pub struct CursorEmitDestroyEventOnLMBDown;

/// The component types, one bit of a key each.
#[derive(Debug, Copy, Clone, PartialEq, Eq, Structural)]
pub enum Kind {
    SpriteXY,
    SpriteUV,
    SpriteWH,
    SpriteR,
    PhysicsBody,
    PhysicsCollider,
    SyncSpriteToPhysics,
    CursorSnapSpriteToGrid,
    CursorEmitDestroyEventOnLMBDown,
    SetUVOnLMBDown,
    SetUVOnLMBUp,
    HP,
    TakeCursorDamage,
    KillUpon0HP,
}

/// The key bit of a component type.
pub open spec fn kind_bit(k: Kind) -> u64 {
    match k {
        Kind::SpriteXY => 0x1,
        Kind::SpriteUV => 0x2,
        Kind::SpriteWH => 0x4,
        Kind::SpriteR => 0x8,
        Kind::PhysicsBody => 0x10,
        Kind::PhysicsCollider => 0x20,
        Kind::SyncSpriteToPhysics => 0x40,
        Kind::CursorSnapSpriteToGrid => 0x80,
        Kind::CursorEmitDestroyEventOnLMBDown => 0x100,
        Kind::SetUVOnLMBDown => 0x200,
        Kind::SetUVOnLMBUp => 0x400,
        Kind::HP => 0x800,
        Kind::TakeCursorDamage => 0x1000,
        Kind::KillUpon0HP => 0x2000,
    }
}

impl Kind {
    pub fn bit(&self) -> (r: u64)
        ensures
            r == kind_bit(*self),
    {
        match self {
            Kind::SpriteXY => 0x1,
            Kind::SpriteUV => 0x2,
            Kind::SpriteWH => 0x4,
            Kind::SpriteR => 0x8,
            Kind::PhysicsBody => 0x10,
            Kind::PhysicsCollider => 0x20,
            Kind::SyncSpriteToPhysics => 0x40,
            Kind::CursorSnapSpriteToGrid => 0x80,
            Kind::CursorEmitDestroyEventOnLMBDown => 0x100,
            Kind::SetUVOnLMBDown => 0x200,
            Kind::SetUVOnLMBUp => 0x400,
            Kind::HP => 0x800,
            Kind::TakeCursorDamage => 0x1000,
            Kind::KillUpon0HP => 0x2000,
        }
    }
}

/// The components of one entity; an absent component is `None`.
#[derive(Debug, Copy, Clone, PartialEq, Eq, Structural)]
pub struct Bundle {
    pub sprite_xy: Option<SpriteXY>,
    pub sprite_uv: Option<SpriteUV>,
    pub sprite_wh: Option<SpriteWH>,
    pub sprite_r: Option<SpriteR>,
    pub physics_body: Option<PhysicsBody>,
    pub physics_collider: Option<PhysicsCollider>,
    pub sync_sprite_to_physics: Option<SyncSpriteToPhysics>,
    pub cursor_snap_sprite_to_grid: Option<CursorSnapSpriteToGrid>,
    pub cursor_emit_destroy_event_on_lmb_down: Option<CursorEmitDestroyEventOnLMBDown>,
    pub set_uv_on_lmb_down: Option<SetUVOnLMBDown>,
    pub set_uv_on_lmb_up: Option<SetUVOnLMBUp>,
    pub hp: Option<HP>,
    pub take_cursor_damage: Option<TakeCursorDamage>,
    pub kill_upon_0_hp: Option<KillUpon0HP>,
}

/// The bits of all component types.
pub open spec fn all_kinds() -> u64 {
    0x3fff
}

pub open spec fn bit_if(present: bool, k: Kind) -> u64 {
    if present {
        kind_bit(k)
    } else {
        0
    }
}

/// The key of a bundle: the bits of the component types it holds.
pub open spec fn key_of(b: Bundle) -> u64 {
    bit_if(b.sprite_xy.is_some(), Kind::SpriteXY) | bit_if(b.sprite_uv.is_some(), Kind::SpriteUV)
        | bit_if(b.sprite_wh.is_some(), Kind::SpriteWH) | bit_if(
        b.sprite_r.is_some(),
        Kind::SpriteR,
    ) | bit_if(b.physics_body.is_some(), Kind::PhysicsBody) | bit_if(
        b.physics_collider.is_some(),
        Kind::PhysicsCollider,
    ) | bit_if(b.sync_sprite_to_physics.is_some(), Kind::SyncSpriteToPhysics) | bit_if(
        b.cursor_snap_sprite_to_grid.is_some(),
        Kind::CursorSnapSpriteToGrid,
    ) | bit_if(
        b.cursor_emit_destroy_event_on_lmb_down.is_some(),
        Kind::CursorEmitDestroyEventOnLMBDown,
    ) | bit_if(b.set_uv_on_lmb_down.is_some(), Kind::SetUVOnLMBDown) | bit_if(
        b.set_uv_on_lmb_up.is_some(),
        Kind::SetUVOnLMBUp,
    ) | bit_if(b.hp.is_some(), Kind::HP) | bit_if(
        b.take_cursor_damage.is_some(),
        Kind::TakeCursorDamage,
    ) | bit_if(b.kill_upon_0_hp.is_some(), Kind::KillUpon0HP)
}

/// Every key of a bundle lies within the bits of the component types.
pub proof fn lemma_key_within(b: Bundle)
    ensures
        key_of(b) & all_kinds() == key_of(b),
{
    let a1 = bit_if(b.sprite_xy.is_some(), Kind::SpriteXY);
    let a2 = bit_if(b.sprite_uv.is_some(), Kind::SpriteUV);
    let a3 = bit_if(b.sprite_wh.is_some(), Kind::SpriteWH);
    let a4 = bit_if(b.sprite_r.is_some(), Kind::SpriteR);
    let a5 = bit_if(b.physics_body.is_some(), Kind::PhysicsBody);
    let a6 = bit_if(b.physics_collider.is_some(), Kind::PhysicsCollider);
    let a7 = bit_if(b.sync_sprite_to_physics.is_some(), Kind::SyncSpriteToPhysics);
    let a8 = bit_if(b.cursor_snap_sprite_to_grid.is_some(), Kind::CursorSnapSpriteToGrid);
    let a9 = bit_if(
        b.cursor_emit_destroy_event_on_lmb_down.is_some(),
        Kind::CursorEmitDestroyEventOnLMBDown,
    );
    let a10 = bit_if(b.set_uv_on_lmb_down.is_some(), Kind::SetUVOnLMBDown);
    let a11 = bit_if(b.set_uv_on_lmb_up.is_some(), Kind::SetUVOnLMBUp);
    let a12 = bit_if(b.hp.is_some(), Kind::HP);
    let a13 = bit_if(b.take_cursor_damage.is_some(), Kind::TakeCursorDamage);
    let a14 = bit_if(b.kill_upon_0_hp.is_some(), Kind::KillUpon0HP);
    assert(key_of(b) == a1 | a2 | a3 | a4 | a5 | a6 | a7 | a8 | a9 | a10 | a11 | a12 | a13 | a14);
    assert(a1 <= 0x1 && a2 <= 0x2 && a3 <= 0x4 && a4 <= 0x8 && a5 <= 0x10 && a6 <= 0x20 && a7
        <= 0x40 && a8 <= 0x80 && a9 <= 0x100 && a10 <= 0x200 && a11 <= 0x400 && a12 <= 0x800 && a13
        <= 0x1000 && a14 <= 0x2000 ==> (a1 | a2 | a3 | a4 | a5 | a6 | a7 | a8 | a9 | a10 | a11 | a12
        | a13 | a14) & 0x3fff == (a1 | a2 | a3 | a4 | a5 | a6 | a7 | a8 | a9 | a10 | a11 | a12 | a13
        | a14)) by (bit_vector);
}

fn bit_when(present: bool, k: Kind) -> (r: u64)
    ensures
        r == bit_if(present, k),
{
    if present {
        k.bit()
    } else {
        0
    }
}

impl Bundle {
    /// A bundle with no components.
    pub fn empty() -> (r: Bundle)
        ensures
            r == Bundle::none(),
    {
        Bundle {
            sprite_xy: None,
            sprite_uv: None,
            sprite_wh: None,
            sprite_r: None,
            physics_body: None,
            physics_collider: None,
            sync_sprite_to_physics: None,
            cursor_snap_sprite_to_grid: None,
            cursor_emit_destroy_event_on_lmb_down: None,
            set_uv_on_lmb_down: None,
            set_uv_on_lmb_up: None,
            hp: None,
            take_cursor_damage: None,
            kill_upon_0_hp: None,
        }
    }

    pub open spec fn none() -> Bundle {
        Bundle {
            sprite_xy: None,
            sprite_uv: None,
            sprite_wh: None,
            sprite_r: None,
            physics_body: None,
            physics_collider: None,
            sync_sprite_to_physics: None,
            cursor_snap_sprite_to_grid: None,
            cursor_emit_destroy_event_on_lmb_down: None,
            set_uv_on_lmb_down: None,
            set_uv_on_lmb_up: None,
            hp: None,
            take_cursor_damage: None,
            kill_upon_0_hp: None,
        }
    }

    /// The bits of the component types this bundle holds.
    pub fn key(&self) -> (r: u64)
        ensures
            r == key_of(*self),
    {
        bit_when(self.sprite_xy.is_some(), Kind::SpriteXY) | bit_when(
            self.sprite_uv.is_some(),
            Kind::SpriteUV,
        ) | bit_when(self.sprite_wh.is_some(), Kind::SpriteWH) | bit_when(
            self.sprite_r.is_some(),
            Kind::SpriteR,
        ) | bit_when(self.physics_body.is_some(), Kind::PhysicsBody) | bit_when(
            self.physics_collider.is_some(),
            Kind::PhysicsCollider,
        ) | bit_when(self.sync_sprite_to_physics.is_some(), Kind::SyncSpriteToPhysics) | bit_when(
            self.cursor_snap_sprite_to_grid.is_some(),
            Kind::CursorSnapSpriteToGrid,
        ) | bit_when(
            self.cursor_emit_destroy_event_on_lmb_down.is_some(),
            Kind::CursorEmitDestroyEventOnLMBDown,
        ) | bit_when(self.set_uv_on_lmb_down.is_some(), Kind::SetUVOnLMBDown) | bit_when(
            self.set_uv_on_lmb_up.is_some(),
            Kind::SetUVOnLMBUp,
        ) | bit_when(self.hp.is_some(), Kind::HP) | bit_when(
            self.take_cursor_damage.is_some(),
            Kind::TakeCursorDamage,
        ) | bit_when(self.kill_upon_0_hp.is_some(), Kind::KillUpon0HP)
    }
}

} // verus!
