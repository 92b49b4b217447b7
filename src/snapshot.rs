use vstd::prelude::*;
use crate::physics::{Pose, handle_key};
use crate::store::Entity;
use crate::world::World;

verus! {

/// An owned copy of what the renderer draws, in library units: parallel
/// arrays of sprite positions, texture corners, sizes and rotations, and
/// the positions of the physics bodies.
pub struct Snapshot {
    pub sprite_xys: Vec<(i32, i32)>,
    pub sprite_uvs: Vec<(i32, i32)>,
    pub sprite_whs: Vec<(i32, i32)>,
    pub sprite_rghs: Vec<(i32, i32, i32)>,
    pub rigid_bodies: Vec<(i32, i32)>,
}

/// The sprite positions of the entities of `s` that have one, in order.
pub open spec fn xys_of(s: Seq<Entity>) -> Seq<(i32, i32)>
    decreases s.len(),
{
    if s.len() == 0 {
        Seq::empty()
    } else {
        match s.last().parts.sprite_xy {
            Some(v) => xys_of(s.drop_last()).push((v.0, v.1)),
            None => xys_of(s.drop_last()),
        }
    }
}

/// The texture corners of the entities of `s` that have one, in order.
pub open spec fn uvs_of(s: Seq<Entity>) -> Seq<(i32, i32)>
    decreases s.len(),
{
    if s.len() == 0 {
        Seq::empty()
    } else {
        match s.last().parts.sprite_uv {
            Some(v) => uvs_of(s.drop_last()).push((v.0, v.1)),
            None => uvs_of(s.drop_last()),
        }
    }
}

/// The sprite sizes of the entities of `s` that have one, in order.
pub open spec fn whs_of(s: Seq<Entity>) -> Seq<(i32, i32)>
    decreases s.len(),
{
    if s.len() == 0 {
        Seq::empty()
    } else {
        match s.last().parts.sprite_wh {
            Some(v) => whs_of(s.drop_last()).push((v.0, v.1)),
            None => whs_of(s.drop_last()),
        }
    }
}

/// The sprite rotations of the entities of `s` that have one, in order.
pub open spec fn rghs_of(s: Seq<Entity>) -> Seq<(i32, i32, i32)>
    decreases s.len(),
{
    if s.len() == 0 {
        Seq::empty()
    } else {
        match s.last().parts.sprite_r {
            Some(v) => rghs_of(s.drop_last()).push((v.0, v.1, v.2)),
            None => rghs_of(s.drop_last()),
        }
    }
}

/// The positions in `bodies` of the bodies that the entities of `s` hold,
/// in order.
pub open spec fn bodies_of(s: Seq<Entity>, bodies: Map<u64, Pose>) -> Seq<(i32, i32)>
    decreases s.len(),
{
    if s.len() == 0 {
        Seq::empty()
    } else {
        match s.last().parts.physics_body {
            Some(b) => {
                let p = bodies[handle_key(b.0)];
                bodies_of(s.drop_last(), bodies).push((p.x, p.y))
            },
            None => bodies_of(s.drop_last(), bodies),
        }
    }
}

/// Copies the renderable state of the committed entities out of the world.
pub fn build_snapshot(world: &World) -> (r: Snapshot)
    requires
        world.wf(),
    ensures
        r.sprite_xys@ == xys_of(world.store.live@),
        r.sprite_uvs@ == uvs_of(world.store.live@),
        r.sprite_whs@ == whs_of(world.store.live@),
        r.sprite_rghs@ == rghs_of(world.store.live@),
        r.rigid_bodies@ == bodies_of(world.store.live@, world.physics.bodies@),
{
    let mut r = Snapshot {
        sprite_xys: Vec::new(),
        sprite_uvs: Vec::new(),
        sprite_whs: Vec::new(),
        sprite_rghs: Vec::new(),
        rigid_bodies: Vec::new(),
    };
    let live = &world.store.live;
    let mut i: usize = 0;
    while i < live.len()
        invariant
            world.wf(),
            live@ == world.store.live@,
            i <= live@.len(),
            r.sprite_xys@ == xys_of(live@.take(i as int)),
            r.sprite_uvs@ == uvs_of(live@.take(i as int)),
            r.sprite_whs@ == whs_of(live@.take(i as int)),
            r.sprite_rghs@ == rghs_of(live@.take(i as int)),
            r.rigid_bodies@ == bodies_of(live@.take(i as int), world.physics.bodies@),
        decreases live@.len() - i,
    {
        let e = live[i];
        assert(live@.take(i + 1).drop_last() =~= live@.take(i as int));
        assert(live@.take(i + 1).last() == e);
        if let Some(v) = e.parts.sprite_xy {
            r.sprite_xys.push((v.0, v.1));
        }
        if let Some(v) = e.parts.sprite_uv {
            r.sprite_uvs.push((v.0, v.1));
        }
        if let Some(v) = e.parts.sprite_wh {
            r.sprite_whs.push((v.0, v.1));
        }
        if let Some(v) = e.parts.sprite_r {
            r.sprite_rghs.push((v.0, v.1, v.2));
        }
        if let Some(b) = e.parts.physics_body {
            proof {
                assert(world.all()[i as int] == e);
                assert(world.handles_valid(world.all()[i as int]));
            }
            match world.physics.body_pose(b.0) {
                Some(p) => {
                    r.rigid_bodies.push((p.x, p.y));
                },
                None => {
                    assert(false);
                },
            }
        }
        i = i + 1;
    }
    assert(live@.take(i as int) =~= live@);
    r
}

/// The index of the `i`-th corner in a buffer of quads drawn as two
/// triangles each: corners 0, 1, 2 and 2, 3, 0 of every quad.
pub open spec fn quad_index(i: int) -> int {
    let q = i / 6;
    let c = i % 6;
    4 * q + corner(c)
}

/// The corner of a quad that position `c` of its six indices names.
pub open spec fn corner(c: int) -> int {
    if c == 0 || c == 5 {
        0
    } else if c == 1 {
        1
    } else if c == 2 || c == 3 {
        2
    } else {
        3
    }
}

/// The index buffer that draws `count` quads as triangles.
pub fn quad_indices(count: u32) -> (r: Vec<u32>)
    requires
        count <= 0x3fff_ffff,
    ensures
        r@.len() == 6 * count,
        forall|i: int| 0 <= i < r@.len() ==> #[trigger] r@[i] == quad_index(i),
{
    let mut r: Vec<u32> = Vec::new();
    let mut n: u32 = 0;
    while n < count
        invariant
            n <= count <= 0x3fff_ffff,
            r@.len() == 6 * n,
            forall|i: int| 0 <= i < r@.len() ==> #[trigger] r@[i] == quad_index(i),
        decreases count - n,
    {
        let base = n * 4;
        r.push(base);
        r.push(base + 1);
        r.push(base + 2);
        r.push(base + 2);
        r.push(base + 3);
        r.push(base);
        proof {
            assert forall|c: int| 0 <= c < 6 implies #[trigger] quad_index(6 * n + c) == 4 * n
                + corner(c) by {
                assert((6 * n + c) / 6 == n as int && (6 * n + c) % 6 == c) by (nonlinear_arith)
                    requires
                        0 <= c < 6,
                        n >= 0,
                ;
            }
            assert forall|i: int| 0 <= i < r@.len() implies #[trigger] r@[i] == quad_index(i) by {
                if i >= 6 * n {
                    assert(quad_index(6 * n + (i - 6 * n)) == quad_index(i));
                }
            }
        }
        n = n + 1;
    }
    r
}

} // verus!
