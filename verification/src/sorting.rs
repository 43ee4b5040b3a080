//! The order in which sprites are drawn: the farthest first.

use crate::camera::{Camera, POSITION_LIMIT};
use crate::fixed::lemma_product_bound;
use crate::sprite::Sprite;
use vstd::prelude::*;

verus! {

/// Whether `p` arranges the first `n` pairs of `keys0` and `ids0` into those of
/// `keys1` and `ids1` as a stable sort by falling key does: `p[i]` is the old
/// place of the pair now at `i`; every old place occurs once; keys fall along
/// the new order, and pairs of equal key keep their old order.
pub open spec fn arranges(
    p: Seq<int>,
    n: int,
    keys0: Seq<i64>,
    ids0: Seq<usize>,
    keys1: Seq<i64>,
    ids1: Seq<usize>,
) -> bool {
    &&& p.len() == n
    &&& forall|i: int| 0 <= i < n ==> 0 <= #[trigger] p[i] < n
    &&& forall|i: int, j: int| 0 <= i < j < n ==> #[trigger] p[i] != #[trigger] p[j]
    &&& forall|i: int| 0 <= i < n ==> #[trigger] keys1[i] == keys0[p[i]]
    &&& forall|i: int| 0 <= i < n ==> #[trigger] ids1[i] == ids0[p[i]]
    &&& forall|i: int, j: int|
        0 <= i < j < n ==> #[trigger] keys1[i] > #[trigger] keys1[j] || (keys1[i] == keys1[j]
            && p[i] < p[j])
}

/// Sorts the first `num_sprites` pairs of a distance and a sprite index by
/// falling distance, so that the farthest sprite comes first. Pairs of equal
/// distance keep their order. The two vectors hold the pairs side by side.
pub fn sort_sprites(
    sprite_order: &mut Vec<usize>,
    sprite_distance: &mut Vec<i64>,
    num_sprites: usize,
)
    requires
        num_sprites <= old(sprite_order)@.len(),
        num_sprites <= old(sprite_distance)@.len(),
    ensures
        final(sprite_order)@.len() == old(sprite_order)@.len(),
        final(sprite_distance)@.len() == old(sprite_distance)@.len(),
        forall|i: int|
            num_sprites <= i < old(sprite_order)@.len() ==> final(sprite_order)@[i] == old(
                sprite_order,
            )@[i],
        forall|i: int|
            num_sprites <= i < old(sprite_distance)@.len() ==> final(sprite_distance)@[i] == old(
                sprite_distance,
            )@[i],
        forall|i: int, j: int|
            0 <= i < j < num_sprites ==> final(sprite_distance)@[i] >= final(sprite_distance)@[j],
        exists|p: Seq<int>|
            arranges(
                p,
                num_sprites as int,
                old(sprite_distance)@,
                old(sprite_order)@,
                final(sprite_distance)@,
                final(sprite_order)@,
            ),
{
    let n: usize = num_sprites;
    let ghost mut p: Seq<int> = Seq::new(n as nat, |i: int| i);
    let mut i: usize = 0;
    while i < n
        invariant
            n <= sprite_order@.len(),
            n <= sprite_distance@.len(),
            sprite_order@.len() == old(sprite_order)@.len(),
            sprite_distance@.len() == old(sprite_distance)@.len(),
            i <= n,
            p.len() == n,
            forall|k: int| 0 <= k < n ==> 0 <= #[trigger] p[k] < n,
            forall|k: int, l: int| 0 <= k < l < n ==> #[trigger] p[k] != #[trigger] p[l],
            forall|k: int| i <= k < n ==> #[trigger] p[k] == k,
            forall|k: int| 0 <= k < i ==> #[trigger] p[k] < i,
            forall|k: int|
                0 <= k < n ==> #[trigger] sprite_distance@[k] == old(sprite_distance)@[p[k]],
            forall|k: int| 0 <= k < n ==> #[trigger] sprite_order@[k] == old(sprite_order)@[p[k]],
            forall|k: int|
                n <= k < sprite_order@.len() ==> sprite_order@[k] == old(sprite_order)@[k],
            forall|k: int|
                n <= k < sprite_distance@.len() ==> sprite_distance@[k] == old(
                    sprite_distance,
                )@[k],
            forall|k: int, l: int|
                0 <= k < l < i ==> #[trigger] sprite_distance@[k] > #[trigger] sprite_distance@[l]
                    || (sprite_distance@[k] == sprite_distance@[l] && p[k] < p[l]),
        decreases n - i,
    {
        let mut j: usize = i;
        while j > 0 && sprite_distance[j - 1] < sprite_distance[j]
            invariant
                n <= sprite_order@.len(),
                n <= sprite_distance@.len(),
                sprite_order@.len() == old(sprite_order)@.len(),
                sprite_distance@.len() == old(sprite_distance)@.len(),
                j <= i < n,
                p.len() == n,
                forall|k: int| 0 <= k < n ==> 0 <= #[trigger] p[k] < n,
                forall|k: int, l: int| 0 <= k < l < n ==> #[trigger] p[k] != #[trigger] p[l],
                forall|k: int| i < k < n ==> #[trigger] p[k] == k,
                p[j as int] == i,
                forall|k: int| 0 <= k <= i && k != j ==> #[trigger] p[k] < i,
                forall|k: int|
                    0 <= k < n ==> #[trigger] sprite_distance@[k] == old(sprite_distance)@[p[k]],
                forall|k: int|
                    0 <= k < n ==> #[trigger] sprite_order@[k] == old(sprite_order)@[p[k]],
                forall|k: int|
                    n <= k < sprite_order@.len() ==> sprite_order@[k] == old(sprite_order)@[k],
                forall|k: int|
                    n <= k < sprite_distance@.len() ==> sprite_distance@[k] == old(
                        sprite_distance,
                    )@[k],
                forall|k: int, l: int|
                    0 <= k < l <= i && k != j && l != j ==> #[trigger] sprite_distance@[k]
                        > #[trigger] sprite_distance@[l] || (sprite_distance@[k]
                        == sprite_distance@[l] && p[k] < p[l]),
                forall|l: int|
                    j < l <= i ==> sprite_distance@[j as int] > #[trigger] sprite_distance@[l],
            decreases j,
        {
            let d: i64 = sprite_distance[j - 1];
            let s: usize = sprite_order[j - 1];
            sprite_distance[j - 1] = sprite_distance[j];
            sprite_order[j - 1] = sprite_order[j];
            sprite_distance[j] = d;
            sprite_order[j] = s;
            proof {
                let before = p[j - 1];
                p = p.update(j - 1, p[j as int]).update(j as int, before);
            }
            j -= 1;
        }
        i += 1;
    }
    proof {
        assert(arranges(
            p,
            num_sprites as int,
            old(sprite_distance)@,
            old(sprite_order)@,
            sprite_distance@,
            sprite_order@,
        ));
    }
}

/// The square of the distance between the camera and a sprite, in units of 2^-32.
pub open spec fn distance_squared(camera: &Camera, sprite: Sprite) -> int {
    (camera.pos_x - sprite.x) * (camera.pos_x - sprite.x) + (camera.pos_y - sprite.y) * (
    camera.pos_y - sprite.y)
}

/// Whether `order` lists every index of `sprites` once, from the farthest
/// sprite to the nearest, those at one distance by rising index.
pub open spec fn far_to_near(order: Seq<usize>, camera: &Camera, sprites: Seq<Sprite>) -> bool {
    &&& order.len() == sprites.len()
    &&& forall|i: int| 0 <= i < order.len() ==> #[trigger] order[i] < sprites.len()
    &&& forall|i: int, j: int|
        0 <= i < j < order.len() ==> #[trigger] order[i] != #[trigger] order[j]
    &&& forall|i: int, j: int|
        0 <= i < j < order.len() ==> {
            let di = distance_squared(camera, sprites[#[trigger] order[i] as int]);
            let dj = distance_squared(camera, sprites[#[trigger] order[j] as int]);
            di > dj || (di == dj && order[i] < order[j])
        }
}

/// Computes `distance_squared(camera, sprite)`.
pub fn distance_squared_of(camera: &Camera, sprite: &Sprite) -> (d: i64)
    requires
        camera.wf(),
        sprite.wf(),
    ensures
        d == distance_squared(camera, *sprite),
{
    let dx: i64 = camera.pos_x - sprite.x;
    let dy: i64 = camera.pos_y - sprite.y;
    proof {
        lemma_product_bound(dx as int, dx as int, POSITION_LIMIT as int, POSITION_LIMIT as int);
        lemma_product_bound(dy as int, dy as int, POSITION_LIMIT as int, POSITION_LIMIT as int);
    }
    dx * dx + dy * dy
}

/// The order in which to draw the sprites: from the farthest to the nearest.
pub fn depth_order(camera: &Camera, sprites: &Vec<Sprite>) -> (order: Vec<usize>)
    requires
        camera.wf(),
        forall|s: int| 0 <= s < sprites@.len() ==> (#[trigger] sprites@[s]).wf(),
    ensures
        far_to_near(order@, camera, sprites@),
{
    let n: usize = sprites.len();
    let mut order: Vec<usize> = Vec::new();
    let mut distance: Vec<i64> = Vec::new();
    let mut i: usize = 0;
    while i < n
        invariant
            camera.wf(),
            forall|s: int| 0 <= s < sprites@.len() ==> (#[trigger] sprites@[s]).wf(),
            n == sprites@.len(),
            i <= n,
            order@.len() == i,
            distance@.len() == i,
            forall|k: int| 0 <= k < i ==> #[trigger] order@[k] == k,
            forall|k: int|
                0 <= k < i ==> #[trigger] distance@[k] == distance_squared(camera, sprites@[k]),
        decreases n - i,
    {
        order.push(i);
        distance.push(distance_squared_of(camera, &sprites[i]));
        i += 1;
    }
    let ghost order0 = order@;
    let ghost distance0 = distance@;
    sort_sprites(&mut order, &mut distance, n);
    proof {
        let p = choose|p: Seq<int>|
            arranges(p, n as int, distance0, order0, distance@, order@);
        assert forall|k: int| 0 <= k < n implies #[trigger] order@[k] == p[k] && distance@[k]
            == distance_squared(camera, sprites@[order@[k] as int]) by {
        }
        assert forall|a: int, b: int| 0 <= a < b < order@.len() implies {
            let da = distance_squared(camera, sprites@[#[trigger] order@[a] as int]);
            let db = distance_squared(camera, sprites@[#[trigger] order@[b] as int]);
            da > db || (da == db && order@[a] < order@[b])
        } by {
        }
    }
    order
}

} // verus!
