//! The presentation boundary's read-only join: a self-consistent,
//! post-maintenance snapshot of position, orientation and visual-reference
//! data, one flattened item per sprite to draw. Turning items into pixels
//! is the presentation layer's business, not the simulation core's.

use vstd::prelude::*;

use crate::world::World;
use crate::world::WorldView;
use crate::components::Sprite;

verus! {

/// One drawable datum: where, at which orientation, and which sprite.
#[derive(Clone, Copy, Debug, PartialEq, Eq, Structural)]
pub struct RenderItem {
    pub x: i32,
    pub y: i32,
    pub angle: u32,
    pub sprite: Sprite,
}

/// The simple join predicate: position, sprite and orientation all
/// present.
pub open spec fn simple_visible(w: WorldView, i: int) -> bool {
    &&& 0 <= i < w.live()
    &&& w.positions[i] is Some
    &&& w.sprites[i] is Some
    &&& w.angles[i] is Some
}

/// The layered join predicate: position, sprite layers and orientation
/// all present.
pub open spec fn layered_visible(w: WorldView, i: int) -> bool {
    &&& 0 <= i < w.live()
    &&& w.positions[i] is Some
    &&& w.layered_sprites[i] is Some
    &&& w.angles[i] is Some
}

/// The drawable item of simple entity `i`.
pub open spec fn simple_item_at(w: WorldView, i: int) -> RenderItem
    recommends
        simple_visible(w, i),
{
    RenderItem {
        x: w.positions[i].unwrap().x,
        y: w.positions[i].unwrap().y,
        angle: w.angles[i].unwrap().angle,
        sprite: w.sprites[i].unwrap(),
    }
}

/// The simple join over the first `i` entities, in entity order.
pub open spec fn simple_items(w: WorldView, i: int) -> Seq<RenderItem>
    decreases i,
{
    if i <= 0 {
        Seq::empty()
    } else {
        simple_items(w, i - 1) + (if simple_visible(w, i - 1) {
            seq![simple_item_at(w, i - 1)]
        } else {
            Seq::empty()
        })
    }
}

/// The drawable items of layered entity `i`, one per layer, all at the
/// entity's position and orientation.
pub open spec fn layered_items_at(w: WorldView, i: int) -> Seq<RenderItem>
    recommends
        layered_visible(w, i),
{
    Seq::new(
        w.layered_sprites[i].unwrap().sprites@.len(),
        |j: int| RenderItem {
            x: w.positions[i].unwrap().x,
            y: w.positions[i].unwrap().y,
            angle: w.angles[i].unwrap().angle,
            sprite: w.layered_sprites[i].unwrap().sprites@[j],
        },
    )
}

/// The flattened layered join over the first `i` entities.
pub open spec fn layered_items(w: WorldView, i: int) -> Seq<RenderItem>
    decreases i,
{
    if i <= 0 {
        Seq::empty()
    } else {
        layered_items(w, i - 1) + (if layered_visible(w, i - 1) {
            layered_items_at(w, i - 1)
        } else {
            Seq::empty()
        })
    }
}

/// The read-only snapshot of every simple entity, in entity order.
pub fn render_snapshot(world: &World) -> (r: Vec<RenderItem>)
    requires
        world.wf(),
    ensures
        r@ == simple_items(world@, world@.live() as int),
{
    let n = world.positions.len();
    let mut r: Vec<RenderItem> = Vec::new();
    let mut i: usize = 0;
    while i < n
        invariant
            world.wf(),
            n == world@.live(),
            i <= n,
            r@ == simple_items(world@, i as int),
        decreases n - i,
    {
        match (world.positions[i], world.sprites[i], world.angles[i]) {
            (Some(p), Some(s), Some(a)) => {
                r.push(RenderItem { x: p.x, y: p.y, angle: a.angle, sprite: s });
                proof {
                    assert(r@ =~= simple_items(world@, i as int + 1));
                }
            },
            _ => {
                proof {
                    assert(!simple_visible(world@, i as int));
                    assert(r@ =~= simple_items(world@, i as int + 1));
                }
            },
        }
        i = i + 1;
    }
    r
}

/// The read-only snapshot of every layered entity, flattened to one item
/// per layer, in entity then layer order.
pub fn layered_snapshot(world: &World) -> (r: Vec<RenderItem>)
    requires
        world.wf(),
    ensures
        r@ == layered_items(world@, world@.live() as int),
{
    let n = world.positions.len();
    let mut r: Vec<RenderItem> = Vec::new();
    let mut i: usize = 0;
    while i < n
        invariant
            world.wf(),
            n == world@.live(),
            i <= n,
            r@ == layered_items(world@, i as int),
        decreases n - i,
    {
        let visible = world.positions[i].is_some() && world.layered_sprites[i].is_some()
            && world.angles[i].is_some();
        if visible {
            let p = world.positions[i].unwrap();
            let a = world.angles[i].unwrap();
            let layer = match &world.layered_sprites[i] {
                Some(l) => l,
                None => {
                    proof {
                        assert(false);
                    }
                    return r;
                },
            };
            let m = layer.sprites.len();
            let mut j: usize = 0;
            while j < m
                invariant
                    world.wf(),
                    n == world@.live(),
                    i < n,
                    layered_visible(world@, i as int),
                    layer == world@.layered_sprites[i as int].unwrap(),
                    m == layer.sprites@.len(),
                    j <= m,
                    p == world@.positions[i as int].unwrap(),
                    a == world@.angles[i as int].unwrap(),
                    r@ == layered_items(world@, i as int) + layered_items_at(
                        world@,
                        i as int,
                    ).take(j as int),
                decreases m - j,
            {
                r.push(RenderItem { x: p.x, y: p.y, angle: a.angle, sprite: layer.sprites[j] });
                proof {
                    assert(r@ =~= layered_items(world@, i as int) + layered_items_at(
                        world@,
                        i as int,
                    ).take(j as int + 1));
                }
                j = j + 1;
            }
            proof {
                assert(layered_items_at(world@, i as int).take(m as int) =~= layered_items_at(
                    world@,
                    i as int,
                ));
                assert(r@ =~= layered_items(world@, i as int + 1));
            }
        } else {
            proof {
                assert(!layered_visible(world@, i as int));
                assert(r@ =~= layered_items(world@, i as int + 1));
            }
        }
        i = i + 1;
    }
    r
}

} // verus!
